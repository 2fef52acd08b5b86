//! What is counted of the use of the model.

use vstd::prelude::*;
use vstd::string::*;

use crate::claude;
use crate::counts;
use crate::event_queue::{TokenUsageDelta, UsageEventView};
use crate::json;
use crate::json::JsonTree;
use crate::laws::entries;
use crate::order;
use crate::text;
use crate::token_usage;
use crate::token_usage::{DayView, TokenUsageSnapshot, TokenUsageTotals, UsageView};

verus! {

proof fn lemma_wraps(a: u64, b: u64)
    ensures
        a.wrapping_add(b) as int == (a + b) % 0x1_0000_0000_0000_0000,
{
}

proof fn lemma_wraps_on(sum: int, a: u64, b: u64)
    requires
        a as int == sum % 0x1_0000_0000_0000_0000,
    ensures
        a.wrapping_add(b) as int == (sum + b) % 0x1_0000_0000_0000_0000,
{
    lemma_wraps(a, b);
}

/// Whether each counter has grown by just what a request reports, modulo 2^64: the requests by
/// one, and the tokens by those of the request.
pub open spec fn grows_by_request(
    after: TokenUsageTotals,
    before: TokenUsageTotals,
    delta: TokenUsageDelta,
) -> bool {
    &&& after.requests as int == (before.requests + 1) % 0x1_0000_0000_0000_0000
    &&& after.input_tokens as int == (before.input_tokens + delta.input_tokens) % 0x1_0000_0000_0000_0000
    &&& after.output_tokens as int == (before.output_tokens + delta.output_tokens) % 0x1_0000_0000_0000_0000
    &&& after.cache_read_tokens as int == (before.cache_read_tokens + delta.cache_read_tokens) % 0x1_0000_0000_0000_0000
    &&& after.cache_write_tokens as int == (before.cache_write_tokens + delta.cache_write_tokens) % 0x1_0000_0000_0000_0000
    &&& after.total_tokens as int == (before.total_tokens + delta.total_tokens) % 0x1_0000_0000_0000_0000
}

proof fn lemma_grows(before: TokenUsageTotals, delta: TokenUsageDelta)
    ensures
        grows_by_request(
            token_usage::plus(before, token_usage::one_request(delta)),
            before,
            delta,
        ),
{
    lemma_wraps(before.requests, 1);
    lemma_wraps(before.input_tokens, delta.input_tokens);
    lemma_wraps(before.output_tokens, delta.output_tokens);
    lemma_wraps(before.cache_read_tokens, delta.cache_read_tokens);
    lemma_wraps(before.cache_write_tokens, delta.cache_write_tokens);
    lemma_wraps(before.total_tokens, delta.total_tokens);
}

/// A request is counted in the totals, and its time is noted.
pub proof fn law_requests_are_counted(
    usage: UsageView,
    date: Seq<char>,
    updated_at: Seq<char>,
    delta: TokenUsageDelta,
)
    ensures
        grows_by_request(
            token_usage::recorded(usage, date, updated_at, delta).totals,
            usage.totals,
            delta,
        ),
        token_usage::recorded(usage, date, updated_at, delta).updated_at == Some(updated_at),
        token_usage::recorded(usage, date, updated_at, delta).last_event_id == usage.last_event_id,
{
    lemma_grows(usage.totals, delta);
}

/// A request is counted under its day, which begins with nothing used, and under no other.
pub proof fn law_requests_are_counted_by_day(
    usage: UsageView,
    date: Seq<char>,
    updated_at: Seq<char>,
    delta: TokenUsageDelta,
    before: Option<DayView>,
    other: (Seq<char>, DayView),
)
    requires
        order::keys_ascend(usage.days),
        match before {
            Some(day) => usage.days.contains((date, day)),
            None => forall|i: int| 0 <= i < usage.days.len() ==> (#[trigger] usage.days[i]).0
                != date,
        },
    ensures
        ({
            let days = token_usage::recorded(usage, date, updated_at, delta).days;
            let was = match before {
                Some(day) => day,
                None => DayView {
                    date,
                    used: TokenUsageTotals {
                        requests: 0,
                        input_tokens: 0,
                        output_tokens: 0,
                        cache_read_tokens: 0,
                        cache_write_tokens: 0,
                        total_tokens: 0,
                    },
                },
            };
            &&& exists|day: DayView| #[trigger]
                days.contains((date, day)) && day.date == was.date && grows_by_request(
                    day.used,
                    was.used,
                    delta,
                )
            &&& other.0 == date && days.contains(other) ==> grows_by_request(
                other.1.used,
                was.used,
                delta,
            )
            &&& other.0 != date ==> (days.contains(other) <==> usage.days.contains(other))
            &&& order::keys_ascend(days)
        }),
{
    let was = token_usage::day_under(usage.days, date);
    if before is Some {
        entries::law_entries_are_found(usage.days, date, before->0);
    }
    lemma_grows(was.used, delta);
    let now = DayView {
        used: token_usage::plus(was.used, token_usage::one_request(delta)),
        ..was
    };
    entries::law_other_entries_stay(usage.days, date, now, other);
    order::law_put_keeps_the_order(usage.days, date, now);
    let days = token_usage::recorded(usage, date, updated_at, delta).days;
    assert(days.contains((date, now)));
}

/// An event is counted once: where it is newer than all that were counted, as the request that
/// it tells of; else not at all.
pub proof fn law_events_are_counted_once(usage: UsageView, event: UsageEventView)
    ensures
        ({
            let after = token_usage::with_event(usage, event);
            let counted = token_usage::recorded(
                usage,
                event.date,
                event.updated_at,
                event.delta,
            );
            &&& event.id <= usage.last_event_id ==> after == usage
            &&& event.id > usage.last_event_id ==> {
                &&& after.last_event_id == event.id
                &&& grows_by_request(after.totals, usage.totals, event.delta)
                &&& after.days == counted.days
                &&& after.updated_at == Some(event.updated_at)
            }
        }),
{
    lemma_grows(usage.totals, event.delta);
}

/// A log is replayed one event after the other.
pub proof fn law_events_are_replayed_in_order(
    usage: UsageView,
    events: Seq<UsageEventView>,
    event: UsageEventView,
)
    ensures
        token_usage::replayed(usage, Seq::empty()) == usage,
        token_usage::replayed(usage, events.push(event)) == token_usage::with_event(
            token_usage::replayed(usage, events),
            event,
        ),
{
    assert(events.push(event).drop_last() =~= events);
}

/// The counters begin at zero, with no day.
pub proof fn law_counting_begins_at_zero()
    ensures
        token_usage::empty_usage().totals.requests == 0,
        token_usage::empty_usage().totals.input_tokens == 0,
        token_usage::empty_usage().totals.output_tokens == 0,
        token_usage::empty_usage().totals.cache_read_tokens == 0,
        token_usage::empty_usage().totals.cache_write_tokens == 0,
        token_usage::empty_usage().totals.total_tokens == 0,
        token_usage::empty_usage().days.len() == 0,
        token_usage::empty_usage().updated_at is None,
        token_usage::empty_usage().last_event_id == 0,
{
}

/// The sum of days is the sum of each counter.
pub proof fn law_days_are_summed(days: Seq<(Seq<char>, DayView)>, day: (Seq<char>, DayView))
    ensures
        ({
            let before = token_usage::days_sum(days);
            let after = token_usage::days_sum(days.push(day));
            let used = day.1.used;
            &&& after.requests as int == (before.requests + used.requests) % 0x1_0000_0000_0000_0000
            &&& after.input_tokens as int == (before.input_tokens + used.input_tokens) % 0x1_0000_0000_0000_0000
            &&& after.output_tokens as int == (before.output_tokens + used.output_tokens) % 0x1_0000_0000_0000_0000
            &&& after.cache_read_tokens as int == (before.cache_read_tokens + used.cache_read_tokens) % 0x1_0000_0000_0000_0000
            &&& after.cache_write_tokens as int == (before.cache_write_tokens + used.cache_write_tokens) % 0x1_0000_0000_0000_0000
            &&& after.total_tokens as int == (before.total_tokens + used.total_tokens) % 0x1_0000_0000_0000_0000
        }),
{
    let before = token_usage::days_sum(days);
    let used = day.1.used;
    assert(days.push(day).drop_last() =~= days);
    lemma_wraps(before.requests, used.requests);
    lemma_wraps(before.input_tokens, used.input_tokens);
    lemma_wraps(before.output_tokens, used.output_tokens);
    lemma_wraps(before.cache_read_tokens, used.cache_read_tokens);
    lemma_wraps(before.cache_write_tokens, used.cache_write_tokens);
    lemma_wraps(before.total_tokens, used.total_tokens);
}

/// All days are shown, the latest first, with the totals.
pub proof fn law_latest_days_are_shown_first(snapshot: TokenUsageSnapshot, usage: UsageView, i: int)
    requires
        token_usage::is_snapshot(snapshot, usage),
        0 <= i < usage.days.len(),
    ensures
        snapshot.totals == usage.totals,
        text::option_text(snapshot.updated_at) == usage.updated_at,
        snapshot.days@.len() == usage.days.len(),
        exists|k: int|
            0 <= k < snapshot.days@.len() && (#[trigger] snapshot.days@[k])@ == usage.days[i].1,
        forall|a: int, b: int|
            0 <= a < b < snapshot.days@.len() ==> !order::text_less(
                (#[trigger] snapshot.days@[a])@.date,
                (#[trigger] snapshot.days@[b])@.date,
            ),
{
    let (dates, order) = choose|dates: Seq<String>, order: Seq<usize>| #[trigger]
        token_usage::shows_days(snapshot.days@, usage.days, dates, order);
    let n = usage.days.len();
    order::lemma_arrangement_covers(order, n, i);
    let k = choose|k: int| 0 <= k < n && order[k] == i;
    assert(snapshot.days@[k]@ == usage.days[i].1);
    assert forall|a: int, b: int| 0 <= a < b < snapshot.days@.len() implies !order::text_less(
        (#[trigger] snapshot.days@[a])@.date,
        (#[trigger] snapshot.days@[b])@.date,
    ) by {
        assert(order::comes_before(dates, true, order[a] as int, order[b] as int));
        assert(order[a] < n && order[b] < n);
        let x = dates[order[a] as int];
        let y = dates[order[b] as int];
        order::lemma_text_total(x@, y@);
        order::lemma_text_total(y@, x@);
        if order::text_less(x@, y@) && order::text_less(y@, x@) {
            order::lemma_text_transitive(x@, y@, x@);
            order::lemma_text_total(x@, x@);
        }
    }
}

// ---------------------------------------------------------------------------
// What a reply reports
// ---------------------------------------------------------------------------

/// The words of a report are different ones.
proof fn lemma_usage_words()
    ensures
        "input_tokens"@ != "prompt_tokens"@,
        "input_tokens"@ != "output_tokens"@,
        "input_tokens"@ != "completion_tokens"@,
        "input_tokens"@ != "total_tokens"@,
        "prompt_tokens"@ != "output_tokens"@,
        "prompt_tokens"@ != "completion_tokens"@,
        "prompt_tokens"@ != "total_tokens"@,
        "output_tokens"@ != "completion_tokens"@,
        "output_tokens"@ != "total_tokens"@,
        "completion_tokens"@ != "total_tokens"@,
{
    reveal_strlit("input_tokens");
    reveal_strlit("prompt_tokens");
    reveal_strlit("output_tokens");
    reveal_strlit("completion_tokens");
    reveal_strlit("total_tokens");
    assert("input_tokens"@.len() == 12);
    assert("prompt_tokens"@.len() == 13);
    assert("output_tokens"@.len() == 13);
    assert("completion_tokens"@.len() == 17);
    assert("total_tokens"@.len() == 12);
    assert("input_tokens"@[0] == 'i' && "total_tokens"@[0] == 't');
    assert("prompt_tokens"@[0] == 'p' && "output_tokens"@[0] == 'o');
}

/// A number that is reported is itself, given as a number or as its digits; anything else is
/// zero.
pub proof fn law_numbers_are_read(tree: JsonTree)
    ensures
        tree matches JsonTree::Integer(n) ==> (0 <= n <= u64::MAX ==> counts::number_of(tree) == n),
        tree matches JsonTree::Integer(n) ==> (n < 0 || n > u64::MAX ==> counts::number_of(tree)
            == 0),
        tree matches JsonTree::Text(said) ==> (said.len() > 0 && text::all_digits(said)
            && text::digits_value(said) <= u64::MAX ==> counts::number_of(tree)
            == text::digits_value(said)),
        tree matches JsonTree::Text(said) ==> (said.len() == 0 ==> counts::number_of(tree) == 0),
        tree is Null || tree is Bool || tree is Array || tree is Object ==> counts::number_of(tree)
            == 0,
{
    if tree is Text {
        let said = tree->Text_0;
        if said.len() > 0 && text::all_digits(said) {
            assert(text::is_digit(said[0]));
        }
    }
}

/// A field is read by its name, and is zero where it is missing; so is one inside another.
pub proof fn law_fields_are_read(tree: JsonTree, outer: Seq<char>, inner: Seq<char>)
    ensures
        tree.get(inner) is None ==> counts::field_number(tree, inner) == 0,
        tree.get(inner) matches Some(value) ==> counts::field_number(tree, inner)
            == counts::number_of(value),
        tree.get(outer) is None ==> counts::inner_number(tree, outer, inner) == 0,
        tree.get(outer) matches Some(value) ==> counts::inner_number(tree, outer, inner)
            == counts::field_number(value, inner),
{
}

/// Of fields that say the same under different names the first that says anything counts.
pub proof fn law_the_first_number_counts(tree: JsonTree, keys: Seq<Seq<char>>)
    ensures
        counts::first_number(tree, keys) == 0 <==> forall|i: int|
            0 <= i < keys.len() ==> counts::field_number(tree, #[trigger] keys[i]) == 0,
        counts::first_number(tree, keys) > 0 ==> exists|i: int|
            0 <= i < keys.len() && counts::first_number(tree, keys) == counts::field_number(
                tree,
                #[trigger] keys[i],
            ) && forall|j: int|
                0 <= j < i ==> counts::field_number(tree, #[trigger] keys[j]) == 0,
    decreases keys.len(),
{
    if keys.len() > 0 {
        let rest = keys.skip(1);
        law_the_first_number_counts(tree, rest);
        assert forall|i: int| 0 <= i < rest.len() implies rest[i] == #[trigger] keys[i + 1] by {
        }
        if counts::field_number(tree, keys[0]) == 0 {
            if counts::first_number(tree, rest) == 0 {
                assert forall|i: int| 0 <= i < keys.len() implies counts::field_number(
                    tree,
                    #[trigger] keys[i],
                ) == 0 by {
                    if i > 0 {
                        assert(rest[i - 1] == keys[i]);
                        assert(counts::field_number(tree, rest[i - 1]) == 0);
                    }
                }
            } else {
                let i = choose|i: int|
                    0 <= i < rest.len() && counts::first_number(tree, rest)
                        == counts::field_number(tree, #[trigger] rest[i]) && forall|j: int|
                        0 <= j < i ==> counts::field_number(tree, #[trigger] rest[j]) == 0;
                assert(keys[i + 1] == rest[i]);
                assert forall|j: int| 0 <= j < i + 1 implies counts::field_number(
                    tree,
                    #[trigger] keys[j],
                ) == 0 by {
                    if j > 0 {
                        assert(rest[j - 1] == keys[j]);
                    }
                }
            }
        }
    }
}

/// Whether `n` is the first of the numbers `list` that is not zero, or `rest` where all are.
pub open spec fn is_first_of(n: u64, list: Seq<u64>, rest: int) -> bool {
    ||| exists|i: int|
        0 <= i < list.len() && n > 0 && n == #[trigger] list[i] && forall|j: int|
            0 <= j < i ==> #[trigger] list[j] == 0
    ||| n as int == rest && forall|j: int| 0 <= j < list.len() ==> #[trigger] list[j] == 0
}

proof fn lemma_first_of(tree: JsonTree, keys: Seq<Seq<char>>, list: Seq<u64>)
    requires
        list.len() == keys.len(),
        forall|i: int|
            0 <= i < keys.len() ==> list[i] == counts::field_number(tree, #[trigger] keys[i]),
    ensures
        counts::first_number(tree, keys) > 0 ==> is_first_of(
            counts::first_number(tree, keys),
            list,
            0,
        ),
        counts::first_number(tree, keys) == 0 ==> forall|j: int|
            0 <= j < list.len() ==> #[trigger] list[j] == 0,
{
    law_the_first_number_counts(tree, keys);
    if counts::first_number(tree, keys) > 0 {
        let i = choose|i: int|
            0 <= i < keys.len() && counts::first_number(tree, keys) == counts::field_number(
                tree,
                #[trigger] keys[i],
            ) && forall|j: int| 0 <= j < i ==> counts::field_number(tree, #[trigger] keys[j]) == 0;
        assert(list[i] == counts::field_number(tree, keys[i]));
        assert forall|j: int| 0 <= j < i implies #[trigger] list[j] == 0 by {
            assert(counts::field_number(tree, keys[j]) == 0);
        }
    } else {
        assert forall|j: int| 0 <= j < list.len() implies #[trigger] list[j] == 0 by {
            assert(counts::field_number(tree, keys[j]) == 0);
        }
    }
}

/// The output that is reported is `output_tokens`, or where that says nothing
/// `completion_tokens`. What was read from the cache and what was written to it are reported
/// under one of four names each, or else inside other fields.
pub proof fn law_reports_are_read(usage: JsonTree)
    ensures
        ({
            let said = token_usage::reported(usage);
            let field = |key: Seq<char>| counts::field_number(usage, key);
            &&& is_first_of(
                said.output_tokens,
                seq![field("output_tokens"@), field("completion_tokens"@)],
                0,
            )
            &&& is_first_of(
                said.cache_read_tokens,
                seq![
                    field("cache_read_input_tokens"@),
                    field("cache_read_tokens"@),
                    field("cache_read"@),
                    field("cached_tokens"@),
                ],
                (counts::inner_number(usage, "input_token_details"@, "cache_read"@)
                    + counts::inner_number(usage, "prompt_tokens_details"@, "cached_tokens"@))
                    % 0x1_0000_0000_0000_0000,
            )
            &&& is_first_of(
                said.cache_write_tokens,
                seq![
                    field("cache_creation_input_tokens"@),
                    field("cache_write_tokens"@),
                    field("cache_creation_tokens"@),
                    field("cache_write"@),
                ],
                (claude::field_sum(usage, "cache_creation"@) + counts::inner_number(
                    usage,
                    "input_token_details"@,
                    "cache_creation"@,
                ) + counts::inner_number(usage, "prompt_tokens_details"@, "cache_creation_tokens"@))
                    % 0x1_0000_0000_0000_0000,
            )
        }),
{
    let said = token_usage::reported(usage);
    let field = |key: Seq<char>| counts::field_number(usage, key);
    let outs = seq![field("output_tokens"@), field("completion_tokens"@)];
    let reads = seq![
        field("cache_read_input_tokens"@),
        field("cache_read_tokens"@),
        field("cache_read"@),
        field("cached_tokens"@),
    ];
    let writes = seq![
        field("cache_creation_input_tokens"@),
        field("cache_write_tokens"@),
        field("cache_creation_tokens"@),
        field("cache_write"@),
    ];
    lemma_first_of(usage, token_usage::output_keys(), outs);
    lemma_first_of(usage, token_usage::read_keys(), reads);
    lemma_first_of(usage, token_usage::write_keys(), writes);
    let a = counts::inner_number(usage, "input_token_details"@, "cache_read"@);
    let b = counts::inner_number(usage, "prompt_tokens_details"@, "cached_tokens"@);
    lemma_wraps(a, b);
    let c = claude::field_sum(usage, "cache_creation"@);
    let d = counts::inner_number(usage, "input_token_details"@, "cache_creation"@);
    let e = counts::inner_number(usage, "prompt_tokens_details"@, "cache_creation_tokens"@);
    lemma_wraps(c, d);
    lemma_wraps_on(c + d, c.wrapping_add(d), e);
}

/// The input that is reported is `input_tokens`, or where that is missing what is left of
/// `prompt_tokens` without what went through the cache. The total is `total_tokens`, or where
/// that is missing the sum of all.
pub proof fn law_totals_are_read(usage: JsonTree)
    ensures
        ({
            let said = token_usage::reported(usage);
            let cached = (said.cache_read_tokens + said.cache_write_tokens)
                % 0x1_0000_0000_0000_0000;
            let prompt = counts::field_number(usage, "prompt_tokens"@);
            &&& usage.get("input_tokens"@) matches Some(input) ==> said.input_tokens
                == counts::number_of(input)
            &&& usage.get("input_tokens"@) is None && prompt >= cached ==> said.input_tokens
                == prompt - cached
            &&& usage.get("input_tokens"@) is None && prompt < cached ==> said.input_tokens == 0
            &&& usage.get("total_tokens"@) matches Some(total) ==> said.total_tokens
                == counts::number_of(total)
            &&& usage.get("total_tokens"@) is None ==> said.total_tokens as int == (
            said.input_tokens + said.output_tokens + said.cache_read_tokens
                + said.cache_write_tokens) % 0x1_0000_0000_0000_0000
        }),
{
    lemma_usage_words();
    let said = token_usage::reported(usage);
    lemma_wraps(said.cache_read_tokens, said.cache_write_tokens);
    let a = said.input_tokens.wrapping_add(said.output_tokens);
    let b = a.wrapping_add(said.cache_read_tokens);
    lemma_wraps(said.input_tokens, said.output_tokens);
    lemma_wraps_on(said.input_tokens + said.output_tokens, a, said.cache_read_tokens);
    lemma_wraps_on(
        said.input_tokens + said.output_tokens + said.cache_read_tokens,
        b,
        said.cache_write_tokens,
    );
}

/// What is read from the cache in all, and written to it, is the sum of what is reported of it
/// under any name.
pub proof fn law_cache_use_is_summed(usage: JsonTree)
    ensures
        claude::cache_reads(usage) as int == (counts::field_number(
            usage,
            "cache_read_input_tokens"@,
        ) + counts::field_number(usage, "cache_read_tokens"@) + counts::field_number(
            usage,
            "cache_read"@,
        ) + counts::field_number(usage, "cached_tokens"@) + counts::inner_number(
            usage,
            "input_token_details"@,
            "cache_read"@,
        ) + counts::inner_number(usage, "prompt_tokens_details"@, "cached_tokens"@))
            % 0x1_0000_0000_0000_0000,
        claude::cache_writes(usage) as int == (counts::field_number(
            usage,
            "cache_creation_input_tokens"@,
        ) + counts::field_number(usage, "cache_write_tokens"@) + counts::field_number(
            usage,
            "cache_creation_tokens"@,
        ) + counts::field_number(usage, "cache_write"@) + claude::field_sum(
            usage,
            "cache_creation"@,
        ) + counts::inner_number(usage, "input_token_details"@, "cache_creation"@)
            + counts::inner_number(usage, "prompt_tokens_details"@, "cache_creation_tokens"@))
            % 0x1_0000_0000_0000_0000,
{
    let a = counts::field_number(usage, "cache_read_input_tokens"@);
    let b = counts::field_number(usage, "cache_read_tokens"@);
    let c = counts::field_number(usage, "cache_read"@);
    let d = counts::field_number(usage, "cached_tokens"@);
    let e = counts::inner_number(usage, "input_token_details"@, "cache_read"@);
    let f = counts::inner_number(usage, "prompt_tokens_details"@, "cached_tokens"@);
    let ab = a.wrapping_add(b);
    let abc = ab.wrapping_add(c);
    let abcd = abc.wrapping_add(d);
    let abcde = abcd.wrapping_add(e);
    lemma_wraps(a, b);
    lemma_wraps_on(a + b, ab, c);
    lemma_wraps_on(a + b + c, abc, d);
    lemma_wraps_on(a + b + c + d, abcd, e);
    lemma_wraps_on(a + b + c + d + e, abcde, f);
    let p = counts::field_number(usage, "cache_creation_input_tokens"@);
    let q = counts::field_number(usage, "cache_write_tokens"@);
    let r = counts::field_number(usage, "cache_creation_tokens"@);
    let s = counts::field_number(usage, "cache_write"@);
    let t = claude::field_sum(usage, "cache_creation"@);
    let u = counts::inner_number(usage, "input_token_details"@, "cache_creation"@);
    let v = counts::inner_number(usage, "prompt_tokens_details"@, "cache_creation_tokens"@);
    let pq = p.wrapping_add(q);
    let pqr = pq.wrapping_add(r);
    let pqrs = pqr.wrapping_add(s);
    let pqrst = pqrs.wrapping_add(t);
    let pqrstu = pqrst.wrapping_add(u);
    lemma_wraps(p, q);
    lemma_wraps_on(p + q, pq, r);
    lemma_wraps_on(p + q + r, pqr, s);
    lemma_wraps_on(p + q + r + s, pqrs, t);
    lemma_wraps_on(p + q + r + s + t, pqrst, u);
    lemma_wraps_on(p + q + r + s + t + u, pqrstu, v);
}

/// The numbers in a value are summed: a number counts itself, a list the sum of its values.
pub proof fn law_numbers_are_summed(items: Seq<JsonTree>, last: JsonTree)
    ensures
        counts::number_sum(JsonTree::Array(Seq::empty())) == 0,
        counts::number_sum(JsonTree::Array(items.push(last))) == counts::number_sum(
            JsonTree::Array(items),
        ) + counts::number_sum(last),
        last is Null || last is Bool ==> counts::number_sum(last) == 0,
        last is Integer || last is Text ==> counts::number_sum(last) == counts::number_of(last),
{
    let more = items.push(last);
    lemma_items_sum(items, more, items.len());
    assert(counts::items_sum(JsonTree::Array(more), more.len()) == counts::items_sum(
        JsonTree::Array(more),
        items.len(),
    ) + counts::number_sum(more[items.len() as int]));
}

proof fn lemma_items_sum(items: Seq<JsonTree>, more: Seq<JsonTree>, n: nat)
    requires
        n <= items.len() <= more.len(),
        forall|i: int| 0 <= i < items.len() ==> items[i] == #[trigger] more[i],
    ensures
        counts::items_sum(JsonTree::Array(items), n) == counts::items_sum(
            JsonTree::Array(more),
            n,
        ),
    decreases n,
{
    if n > 0 {
        lemma_items_sum(items, more, (n - 1) as nat);
        assert(items[n - 1] == more[n - 1]);
    }
}

/// The numbers in an object are the sum of those in its fields.
pub proof fn law_fields_are_summed(fields: json::Fields, key: Seq<char>, value: JsonTree)
    requires
        fields.dom().finite(),
        !fields.dom().contains(key),
    ensures
        counts::number_sum(JsonTree::Object(json::no_fields())) == 0,
        counts::number_sum(JsonTree::Object(fields.insert(key, value))) == counts::number_sum(
            JsonTree::Object(fields),
        ) + counts::number_sum(value),
{
    let more = fields.insert(key, value);
    counts::lemma_fields_sum(JsonTree::Object(more), more.dom(), key);
    assert(more.dom().remove(key) =~= fields.dom());
    lemma_same_fields(fields, more, fields.dom());
    assert(json::no_fields().dom() =~= Set::empty());
}

proof fn lemma_same_fields(fields: json::Fields, more: json::Fields, keys: Set<Seq<char>>)
    requires
        keys.finite(),
        keys.subset_of(fields.dom()),
        fields.dom().subset_of(more.dom()),
        forall|k: Seq<char>| fields.dom().contains(k) ==> fields[k] == #[trigger] more[k],
    ensures
        counts::fields_sum(JsonTree::Object(fields), keys) == counts::fields_sum(
            JsonTree::Object(more),
            keys,
        ),
    decreases keys.len(),
{
    if keys.len() > 0 {
        let first = keys.choose();
        lemma_same_fields(fields, more, keys.remove(first));
        assert(fields[first] == more[first]);
    }
}

/// The numbers in a field are summed, modulo 2^64; a field that is missing counts nothing.
pub proof fn law_a_field_is_summed(tree: JsonTree, key: Seq<char>)
    ensures
        tree.get(key) is None ==> claude::field_sum(tree, key) == 0,
        tree.get(key) matches Some(value) ==> (0 <= counts::number_sum(value) <= u64::MAX
            ==> claude::field_sum(tree, key) == counts::number_sum(value)),
{
}

} // verus!
