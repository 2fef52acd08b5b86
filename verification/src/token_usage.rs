//! What requests use: read from the reports of the API, summed up in all and by day, and
//! kept on disk as a snapshot and a log of what came since.

use vstd::prelude::*;
use vstd::string::*;

use crate::claude;
use crate::clock;
use crate::counts;
use crate::event_queue;
use crate::event_queue::{EventQueue, TokenUsageDelta, TokenUsageEvent, UsageEventView};
use crate::json::{Json, JsonTree};
use crate::order;
use crate::text;
use crate::throttle::{EmitGate, EmitPlan};

verus! {

/// The name of the file with the snapshot.
pub const USAGE_FILE_NAME: &'static str = "token-usage.json";

/// The name of the file with the events since the snapshot.
pub const USAGE_EVENTS_FILE_NAME: &'static str = "token-usage-events.jsonl";

/// How many events are written at once.
pub const USAGE_FLUSH_BATCH: usize = 1_024;

/// After how many events a new snapshot is written.
pub const USAGE_COMPACT_EVERY_EVENTS: usize = 5_000;

/// Listeners are told once in this many milliseconds.
pub const USAGE_EVENT_EMIT_MS: u64 = 250;

/// The event that tells listeners of new usage.
pub const USAGE_EVENT: &'static str = "token-usage-updated";

/// What all requests used. The counters wrap around.
#[derive(Debug, Clone, Copy, PartialEq, Eq, Structural)]
pub struct TokenUsageTotals {
    pub requests: u64,
    pub input_tokens: u64,
    pub output_tokens: u64,
    pub cache_read_tokens: u64,
    pub cache_write_tokens: u64,
    pub total_tokens: u64,
}

/// What the requests of one day used. The counters wrap around.
#[derive(Debug)]
pub struct DailyTokenUsage {
    pub date: String,
    pub requests: u64,
    pub input_tokens: u64,
    pub output_tokens: u64,
    pub cache_read_tokens: u64,
    pub cache_write_tokens: u64,
    pub total_tokens: u64,
}

/// What a [`DailyTokenUsage`] says.
#[verifier::ext_equal]
pub struct DayView {
    pub date: Seq<char>,
    pub used: TokenUsageTotals,
}

impl View for DailyTokenUsage {
    type V = DayView;

    open spec fn view(&self) -> DayView {
        DayView {
            date: self.date@,
            used: TokenUsageTotals {
                requests: self.requests,
                input_tokens: self.input_tokens,
                output_tokens: self.output_tokens,
                cache_read_tokens: self.cache_read_tokens,
                cache_write_tokens: self.cache_write_tokens,
                total_tokens: self.total_tokens,
            },
        }
    }
}

impl Clone for DailyTokenUsage {
    fn clone(&self) -> (copy: Self)
        ensures
            copy@ == self@,
    {
        DailyTokenUsage {
            date: self.date.clone(),
            requests: self.requests,
            input_tokens: self.input_tokens,
            output_tokens: self.output_tokens,
            cache_read_tokens: self.cache_read_tokens,
            cache_write_tokens: self.cache_write_tokens,
            total_tokens: self.total_tokens,
        }
    }
}

/// The usage as it is shown, the latest day first.
#[derive(Debug)]
pub struct TokenUsageSnapshot {
    pub totals: TokenUsageTotals,
    pub days: Vec<DailyTokenUsage>,
    pub updated_at: Option<String>,
}

/// The usage as it is kept: the days by the keys that they are kept under, in the order of
/// the keys.
#[derive(Debug)]
pub struct TokenUsageFile {
    pub totals: TokenUsageTotals,
    pub days: Vec<(String, DailyTokenUsage)>,
    pub updated_at: Option<String>,
    pub last_event_id: u64,
}

/// What a [`TokenUsageFile`] says.
#[verifier::ext_equal]
pub struct UsageView {
    pub totals: TokenUsageTotals,
    pub days: Seq<(Seq<char>, DayView)>,
    pub updated_at: Option<Seq<char>>,
    pub last_event_id: u64,
}

/// What days say, with their keys.
pub open spec fn day_views(days: Seq<(String, DailyTokenUsage)>) -> Seq<(Seq<char>, DayView)> {
    Seq::new(days.len(), |i: int| (days[i].0@, days[i].1@))
}

impl View for TokenUsageFile {
    type V = UsageView;

    open spec fn view(&self) -> UsageView {
        UsageView {
            totals: self.totals,
            days: day_views(self.days@),
            updated_at: text::option_text(self.updated_at),
            last_event_id: self.last_event_id,
        }
    }
}

// ---------------------------------------------------------------------------
// Reports
// ---------------------------------------------------------------------------

/// The fields in which the output is reported.
pub open spec fn output_keys() -> Seq<Seq<char>> {
    seq!["output_tokens"@, "completion_tokens"@]
}

/// The fields in which what was read from the cache is reported.
pub open spec fn read_keys() -> Seq<Seq<char>> {
    seq![
        "cache_read_input_tokens"@,
        "cache_read_tokens"@,
        "cache_read"@,
        "cached_tokens"@,
    ]
}

/// The fields in which what was written to the cache is reported.
pub open spec fn write_keys() -> Seq<Seq<char>> {
    seq![
        "cache_creation_input_tokens"@,
        "cache_write_tokens"@,
        "cache_creation_tokens"@,
        "cache_write"@,
    ]
}

/// The first number, unless it is 0.
pub open spec fn or_else(first: u64, second: u64) -> u64 {
    if first > 0 {
        first
    } else {
        second
    }
}

/// What was read from the cache: as one of the plain fields says, else as the nested ones
/// say.
pub open spec fn read_tokens(usage: JsonTree) -> u64 {
    or_else(
        counts::first_number(usage, read_keys()),
        counts::inner_number(usage, "input_token_details"@, "cache_read"@).wrapping_add(
            counts::inner_number(usage, "prompt_tokens_details"@, "cached_tokens"@),
        ),
    )
}

/// What was written to the cache: as one of the plain fields says, else as the nested ones
/// say.
pub open spec fn written_tokens(usage: JsonTree) -> u64 {
    or_else(
        counts::first_number(usage, write_keys()),
        claude::field_sum(usage, "cache_creation"@).wrapping_add(
            counts::inner_number(usage, "input_token_details"@, "cache_creation"@),
        ).wrapping_add(
            counts::inner_number(usage, "prompt_tokens_details"@, "cache_creation_tokens"@),
        ),
    )
}

/// The input: as reported, or the prompt without what went through the cache.
pub open spec fn input_tokens(usage: JsonTree) -> u64 {
    if usage.get("input_tokens"@) is Some {
        counts::field_number(usage, "input_tokens"@)
    } else {
        let prompt = counts::field_number(usage, "prompt_tokens"@);
        let cached = read_tokens(usage).wrapping_add(written_tokens(usage));
        if prompt >= cached {
            (prompt - cached) as u64
        } else {
            0
        }
    }
}

/// What a report says was used. Sums wrap around.
pub open spec fn reported(usage: JsonTree) -> TokenUsageDelta {
    let output = counts::first_number(usage, output_keys());
    TokenUsageDelta {
        input_tokens: input_tokens(usage),
        output_tokens: output,
        cache_read_tokens: read_tokens(usage),
        cache_write_tokens: written_tokens(usage),
        total_tokens: match usage.get("total_tokens"@) {
            Some(total) => counts::number_of(total),
            None => input_tokens(usage).wrapping_add(output).wrapping_add(
                read_tokens(usage),
            ).wrapping_add(written_tokens(usage)),
        },
    }
}

/// What a report says was used.
pub fn normalize_usage(usage: &Json) -> (delta: TokenUsageDelta)
    ensures
        delta == reported(usage.tree()),
{
    let output_names: [&str; 2] = ["output_tokens", "completion_tokens"];
    assert(text::each_text(output_names@) =~= output_keys());
    let output: u64 = counts::first_number_field(usage, &output_names);

    let read_names: [&str; 4] = [
        "cache_read_input_tokens",
        "cache_read_tokens",
        "cache_read",
        "cached_tokens",
    ];
    assert(text::each_text(read_names@) =~= read_keys());
    let explicit_read: u64 = counts::first_number_field(usage, &read_names);
    let nested_read: u64 = counts::nested_number_field(
        usage,
        "input_token_details",
        "cache_read",
    ).wrapping_add(
        counts::nested_number_field(usage, "prompt_tokens_details", "cached_tokens"),
    );
    let read: u64 = if explicit_read > 0 {
        explicit_read
    } else {
        nested_read
    };

    let write_names: [&str; 4] = [
        "cache_creation_input_tokens",
        "cache_write_tokens",
        "cache_creation_tokens",
        "cache_write",
    ];
    assert(text::each_text(write_names@) =~= write_keys());
    let explicit_write: u64 = counts::first_number_field(usage, &write_names);
    let nested_write: u64 = claude::sum_field(usage, "cache_creation").wrapping_add(
        counts::nested_number_field(usage, "input_token_details", "cache_creation"),
    ).wrapping_add(
        counts::nested_number_field(usage, "prompt_tokens_details", "cache_creation_tokens"),
    );
    let written: u64 = if explicit_write > 0 {
        explicit_write
    } else {
        nested_write
    };

    let input: u64 = match usage.get("input_tokens") {
        Some(value) => counts::number_value(value),
        None => counts::number_field(usage, "prompt_tokens").saturating_sub(
            read.wrapping_add(written),
        ),
    };
    let total: u64 = match usage.get("total_tokens") {
        Some(value) => counts::number_value(value),
        None => input.wrapping_add(output).wrapping_add(read).wrapping_add(written),
    };
    TokenUsageDelta {
        input_tokens: input,
        output_tokens: output,
        cache_read_tokens: read,
        cache_write_tokens: written,
        total_tokens: total,
    }
}

/// What goes through the cache is not counted as input as well: where only the prompt is
/// reported, and the cached part of it is no larger than the prompt, the parts add up to
/// it.
pub proof fn law_cache_is_not_counted_twice(usage: JsonTree)
    requires
        usage.get("input_tokens"@) is None,
        read_tokens(usage) + written_tokens(usage) <= counts::field_number(
            usage,
            "prompt_tokens"@,
        ),
    ensures
        reported(usage).input_tokens + reported(usage).cache_read_tokens
            + reported(usage).cache_write_tokens == counts::field_number(usage, "prompt_tokens"@),
{
}

// ---------------------------------------------------------------------------
// Sums
// ---------------------------------------------------------------------------

/// Nothing used.
pub open spec fn nothing_used() -> TokenUsageTotals {
    TokenUsageTotals {
        requests: 0,
        input_tokens: 0,
        output_tokens: 0,
        cache_read_tokens: 0,
        cache_write_tokens: 0,
        total_tokens: 0,
    }
}

/// What one request used, as a sum.
pub open spec fn one_request(delta: TokenUsageDelta) -> TokenUsageTotals {
    TokenUsageTotals {
        requests: 1,
        input_tokens: delta.input_tokens,
        output_tokens: delta.output_tokens,
        cache_read_tokens: delta.cache_read_tokens,
        cache_write_tokens: delta.cache_write_tokens,
        total_tokens: delta.total_tokens,
    }
}

/// Two sums together.
pub open spec fn plus(a: TokenUsageTotals, b: TokenUsageTotals) -> TokenUsageTotals {
    TokenUsageTotals {
        requests: a.requests.wrapping_add(b.requests),
        input_tokens: a.input_tokens.wrapping_add(b.input_tokens),
        output_tokens: a.output_tokens.wrapping_add(b.output_tokens),
        cache_read_tokens: a.cache_read_tokens.wrapping_add(b.cache_read_tokens),
        cache_write_tokens: a.cache_write_tokens.wrapping_add(b.cache_write_tokens),
        total_tokens: a.total_tokens.wrapping_add(b.total_tokens),
    }
}

impl Default for TokenUsageTotals {
    fn default() -> (totals: Self)
        ensures
            totals == nothing_used(),
    {
        TokenUsageTotals {
            requests: 0,
            input_tokens: 0,
            output_tokens: 0,
            cache_read_tokens: 0,
            cache_write_tokens: 0,
            total_tokens: 0,
        }
    }
}

impl TokenUsageTotals {
    /// Adds what one request used.
    pub fn add(&mut self, delta: TokenUsageDelta)
        ensures
            *final(self) == plus(*old(self), one_request(delta)),
    {
        self.requests = self.requests.wrapping_add(1);
        self.input_tokens = self.input_tokens.wrapping_add(delta.input_tokens);
        self.output_tokens = self.output_tokens.wrapping_add(delta.output_tokens);
        self.cache_read_tokens = self.cache_read_tokens.wrapping_add(delta.cache_read_tokens);
        self.cache_write_tokens = self.cache_write_tokens.wrapping_add(delta.cache_write_tokens);
        self.total_tokens = self.total_tokens.wrapping_add(delta.total_tokens);
    }
}

impl DailyTokenUsage {
    /// A day on which nothing was used.
    pub fn new(date: &str) -> (day: DailyTokenUsage)
        ensures
            day@ == (DayView { date: date@, used: nothing_used() }),
    {
        DailyTokenUsage {
            date: date.to_owned(),
            requests: 0,
            input_tokens: 0,
            output_tokens: 0,
            cache_read_tokens: 0,
            cache_write_tokens: 0,
            total_tokens: 0,
        }
    }

    /// Adds what one request used.
    pub fn add(&mut self, delta: TokenUsageDelta)
        ensures
            final(self)@ == (DayView {
                date: old(self)@.date,
                used: plus(old(self)@.used, one_request(delta)),
            }),
    {
        self.requests = self.requests.wrapping_add(1);
        self.input_tokens = self.input_tokens.wrapping_add(delta.input_tokens);
        self.output_tokens = self.output_tokens.wrapping_add(delta.output_tokens);
        self.cache_read_tokens = self.cache_read_tokens.wrapping_add(delta.cache_read_tokens);
        self.cache_write_tokens = self.cache_write_tokens.wrapping_add(delta.cache_write_tokens);
        self.total_tokens = self.total_tokens.wrapping_add(delta.total_tokens);
    }
}

/// What is kept of the day under `date`: nothing used, where there is none.
pub open spec fn day_under(days: Seq<(Seq<char>, DayView)>, date: Seq<char>) -> DayView {
    if order::has_entry(days, date) {
        days[order::rank(days, date) as int].1
    } else {
        DayView { date, used: nothing_used() }
    }
}

/// The days with one more request on the day kept under `date`.
pub open spec fn with_request(
    days: Seq<(Seq<char>, DayView)>,
    date: Seq<char>,
    delta: TokenUsageDelta,
) -> Seq<(Seq<char>, DayView)> {
    let day = day_under(days, date);
    order::put(
        days,
        date,
        DayView { used: plus(day.used, one_request(delta)), ..day },
    )
}

/// The usage with one more request.
pub open spec fn recorded(
    usage: UsageView,
    date: Seq<char>,
    updated_at: Seq<char>,
    delta: TokenUsageDelta,
) -> UsageView {
    UsageView {
        totals: plus(usage.totals, one_request(delta)),
        days: with_request(usage.days, date, delta),
        updated_at: Some(updated_at),
        ..usage
    }
}

/// The usage with one more event, unless the event is counted already.
pub open spec fn with_event(usage: UsageView, event: UsageEventView) -> UsageView {
    if event.id <= usage.last_event_id {
        usage
    } else {
        UsageView {
            last_event_id: event.id,
            ..recorded(usage, event.date, event.updated_at, event.delta)
        }
    }
}

/// The usage with more events.
pub open spec fn replayed(usage: UsageView, events: Seq<UsageEventView>) -> UsageView
    decreases events.len(),
{
    if events.len() == 0 {
        usage
    } else {
        with_event(replayed(usage, events.drop_last()), events.last())
    }
}

/// No usage.
pub open spec fn empty_usage() -> UsageView {
    UsageView {
        totals: nothing_used(),
        days: Seq::empty(),
        updated_at: None,
        last_event_id: 0,
    }
}

/// What the days used together.
pub open spec fn days_sum(days: Seq<(Seq<char>, DayView)>) -> TokenUsageTotals
    decreases days.len(),
{
    if days.len() == 0 {
        nothing_used()
    } else {
        plus(days_sum(days.drop_last()), days.last().1.used)
    }
}

proof fn lemma_sum_update(days: Seq<(Seq<char>, DayView)>, at: int, day: (Seq<char>, DayView), more: TokenUsageTotals)
    requires
        0 <= at < days.len(),
        day.1.used == plus(days[at].1.used, more),
    ensures
        days_sum(days.update(at, day)) == plus(days_sum(days), more),
    decreases days.len(),
{
    let after = days.update(at, day);
    if at == days.len() - 1 {
        assert(after.drop_last() =~= days.drop_last());
    } else {
        lemma_sum_update(days.drop_last(), at, day, more);
        assert(after.drop_last() =~= days.drop_last().update(at, day));
    }
}

proof fn lemma_sum_insert(days: Seq<(Seq<char>, DayView)>, at: int, day: (Seq<char>, DayView))
    requires
        0 <= at <= days.len(),
    ensures
        days_sum(days.insert(at, day)) == plus(days_sum(days), day.1.used),
    decreases days.len(),
{
    let after = days.insert(at, day);
    if at == days.len() {
        assert(after.drop_last() =~= days);
    } else {
        lemma_sum_insert(days.drop_last(), at, day);
        assert(after.drop_last() =~= days.drop_last().insert(at, day));
    }
}

/// The days add up to the total: what holds before a request is recorded holds after it.
pub proof fn law_days_add_up(
    usage: UsageView,
    date: Seq<char>,
    updated_at: Seq<char>,
    delta: TokenUsageDelta,
)
    requires
        usage.totals == days_sum(usage.days),
    ensures
        recorded(usage, date, updated_at, delta).totals == days_sum(
            recorded(usage, date, updated_at, delta).days,
        ),
{
    order::lemma_rank(usage.days, date);
    let at = order::rank(usage.days, date) as int;
    let after = with_request(usage.days, date, delta);
    if order::has_entry(usage.days, date) {
        lemma_sum_update(usage.days, at, after[at], one_request(delta));
    } else {
        let day = (date, DayView { date, used: plus(nothing_used(), one_request(delta)) });
        lemma_sum_insert(usage.days, at, day);
    }
}

proof fn lemma_replay_reaches(usage: UsageView, events: Seq<UsageEventView>)
    ensures
        usage.last_event_id <= replayed(usage, events).last_event_id,
        forall|i: int|
            0 <= i < events.len() ==> (#[trigger] events[i]).id <= replayed(
                usage,
                events,
            ).last_event_id,
    decreases events.len(),
{
    if events.len() > 0 {
        let front = events.drop_last();
        lemma_replay_reaches(usage, front);
        assert forall|i: int| 0 <= i < events.len() implies (#[trigger] events[i]).id <= replayed(
            usage,
            events,
        ).last_event_id by {
            if i < front.len() {
                assert(front[i] == events[i]);
            }
        }
    }
}

proof fn lemma_replay_skips(usage: UsageView, events: Seq<UsageEventView>)
    requires
        forall|i: int| 0 <= i < events.len() ==> (#[trigger] events[i]).id <= usage.last_event_id,
    ensures
        replayed(usage, events) == usage,
    decreases events.len(),
{
    if events.len() > 0 {
        let front = events.drop_last();
        assert forall|i: int| 0 <= i < front.len() implies (#[trigger] front[i]).id
            <= usage.last_event_id by {
            assert(front[i] == events[i]);
        }
        lemma_replay_skips(usage, front);
        assert(events[events.len() - 1].id <= usage.last_event_id);
    }
}

/// No event is counted twice: to replay a log again changes nothing.
pub proof fn law_replay_counts_once(usage: UsageView, events: Seq<UsageEventView>)
    ensures
        replayed(replayed(usage, events), events) == replayed(usage, events),
{
    lemma_replay_reaches(usage, events);
    lemma_replay_skips(replayed(usage, events), events);
}

/// Events that a snapshot holds already are not counted when the log is replayed.
pub proof fn law_snapshot_events_are_skipped(
    usage: UsageView,
    old_events: Seq<UsageEventView>,
    new_events: Seq<UsageEventView>,
)
    requires
        forall|i: int|
            0 <= i < old_events.len() ==> (#[trigger] old_events[i]).id <= usage.last_event_id,
    ensures
        replayed(usage, old_events + new_events) == replayed(usage, new_events),
    decreases new_events.len(),
{
    if new_events.len() == 0 {
        lemma_replay_skips(usage, old_events);
        assert(old_events + new_events =~= old_events);
    } else {
        law_snapshot_events_are_skipped(usage, old_events, new_events.drop_last());
        assert((old_events + new_events).drop_last() =~= old_events + new_events.drop_last());
    }
}

// ---------------------------------------------------------------------------
// What is kept
// ---------------------------------------------------------------------------

impl Default for TokenUsageFile {
    fn default() -> (file: Self)
        ensures
            file@ == empty_usage(),
    {
        let file = TokenUsageFile {
            totals: TokenUsageTotals::default(),
            days: Vec::new(),
            updated_at: None,
            last_event_id: 0,
        };
        assert(file@ =~= empty_usage());
        file
    }
}

impl Clone for TokenUsageFile {
    fn clone(&self) -> (copy: Self)
        ensures
            copy@ == self@,
    {
        let mut days: Vec<(String, DailyTokenUsage)> = Vec::new();
        let mut i: usize = 0;
        while i < self.days.len()
            invariant
                i <= self.days@.len(),
                days@.len() == i,
                forall|j: int|
                    0 <= j < i ==> (#[trigger] days@[j]).0@ == self.days@[j].0@ && days@[j].1@
                        == self.days@[j].1@,
            decreases self.days@.len() - i,
        {
            days.push((self.days[i].0.clone(), self.days[i].1.clone()));
            i += 1;
        }
        let copy = TokenUsageFile {
            totals: self.totals,
            days,
            updated_at: text::copy_option(&self.updated_at),
            last_event_id: self.last_event_id,
        };
        assert(copy@.days =~= self@.days);
        copy
    }
}

/// Whether a list of days shows the days that are kept: the one with the greatest date
/// first, and days with the same date in the order of their keys.
pub open spec fn shows_days(
    shown: Seq<DailyTokenUsage>,
    days: Seq<(Seq<char>, DayView)>,
    dates: Seq<String>,
    order: Seq<usize>,
) -> bool {
    &&& dates.len() == days.len()
    &&& forall|i: int| 0 <= i < days.len() ==> (#[trigger] dates[i])@ == days[i].1.date
    &&& order::is_stable_order(dates, true, order)
    &&& shown.len() == days.len()
    &&& forall|k: int|
        0 <= k < shown.len() ==> (#[trigger] shown[k])@ == days[order[k] as int].1
}

/// Whether `snapshot` is how a usage is shown.
pub open spec fn is_snapshot(snapshot: TokenUsageSnapshot, usage: UsageView) -> bool {
    &&& snapshot.totals == usage.totals
    &&& text::option_text(snapshot.updated_at) == usage.updated_at
    &&& exists|dates: Seq<String>, order: Seq<usize>| #[trigger]
        shows_days(snapshot.days@, usage.days, dates, order)
}

impl TokenUsageFile {
    /// How the usage is shown.
    pub fn snapshot(&self) -> (snapshot: TokenUsageSnapshot)
        ensures
            is_snapshot(snapshot, self@),
    {
        let mut dates: Vec<String> = Vec::new();
        let mut i: usize = 0;
        while i < self.days.len()
            invariant
                i <= self.days@.len(),
                dates@.len() == i,
                forall|j: int|
                    0 <= j < i ==> (#[trigger] dates@[j])@ == self.days@[j].1@.date,
            decreases self.days@.len() - i,
        {
            dates.push(self.days[i].1.date.clone());
            i += 1;
        }
        let order = order::stable_order(&dates, true);
        let mut days: Vec<DailyTokenUsage> = Vec::new();
        let mut k: usize = 0;
        while k < order.len()
            invariant
                k <= order@.len(),
                order::is_arrangement(order@, self.days@.len()),
                days@.len() == k,
                forall|j: int|
                    0 <= j < k ==> (#[trigger] days@[j])@ == self.days@[order@[j] as int].1@,
            decreases order@.len() - k,
        {
            days.push(self.days[order[k]].1.clone());
            k += 1;
        }
        let snapshot = TokenUsageSnapshot {
            totals: self.totals,
            days,
            updated_at: text::copy_option(&self.updated_at),
        };
        assert(shows_days(snapshot.days@, self@.days, dates@, order@));
        snapshot
    }

    /// Records what one request used.
    pub fn record(&mut self, date: &str, updated_at: String, delta: TokenUsageDelta)
        requires
            order::keys_ascend(old(self)@.days),
        ensures
            final(self)@ == recorded(old(self)@, date@, updated_at@, delta),
            order::keys_ascend(final(self)@.days),
    {
        let ghost before = self@;
        self.totals.add(delta);
        let mut at: usize = 0;
        while at < self.days.len() && order::text_before(self.days[at].0.as_str(), date)
            invariant
                at <= self.days@.len(),
                day_views(self.days@) == before.days,
                self.totals == plus(before.totals, one_request(delta)),
                self.last_event_id == before.last_event_id,
                forall|i: int|
                    0 <= i < at ==> order::text_less((#[trigger] before.days[i]).0, date@),
            ensures
                at < self.days@.len() ==> !order::text_less(before.days[at as int].0, date@),
            decreases self.days@.len() - at,
        {
            assert(before.days[at as int].0 == self.days@[at as int].0@);
            at += 1;
        }
        proof {
            order::lemma_rank_is(before.days, date@, at as int);
            let day = day_under(before.days, date@);
            order::law_put_keeps_the_order(
                before.days,
                date@,
                DayView { used: plus(day.used, one_request(delta)), ..day },
            );
        }
        let ghost kept = self.days@;
        if at < self.days.len() && text::same_text(self.days[at].0.as_str(), date) {
            assert(before.days[at as int] == (self.days@[at as int].0@, self.days@[at as int].1@));
            let mut day = self.days[at].1.clone();
            day.add(delta);
            self.days.set(at, (date.to_owned(), day));
            assert(day_views(self.days@) =~= with_request(before.days, date@, delta));
        } else {
            proof {
                if at < self.days@.len() {
                    assert(before.days[at as int].0 == self.days@[at as int].0@);
                }
            }
            let mut day = DailyTokenUsage::new(date);
            day.add(delta);
            self.days.insert(at, (date.to_owned(), day));
            assert(day_views(self.days@) =~= with_request(before.days, date@, delta));
        }
        self.updated_at = Some(updated_at);
    }

    /// Records an event, unless it is counted already.
    pub fn record_event(&mut self, event: &TokenUsageEvent)
        requires
            order::keys_ascend(old(self)@.days),
        ensures
            final(self)@ == with_event(old(self)@, event@),
            order::keys_ascend(final(self)@.days),
    {
        if event.id <= self.last_event_id {
            return;
        }
        self.record(event.date.as_str(), event.updated_at.clone(), event.delta);
        self.last_event_id = event.id;
    }

    /// Records the events of a log, but for those that are counted already.
    pub fn replay_usage_events(&mut self, events: &Vec<TokenUsageEvent>)
        requires
            order::keys_ascend(old(self)@.days),
        ensures
            final(self)@ == replayed(old(self)@, event_queue::event_views(events@)),
            order::keys_ascend(final(self)@.days),
    {
        let ghost start = self@;
        let ghost views = event_queue::event_views(events@);
        let mut i: usize = 0;
        while i < events.len()
            invariant
                i <= events@.len(),
                views == event_queue::event_views(events@),
                order::keys_ascend(self@.days),
                self@ == replayed(start, views.take(i as int)),
            decreases events@.len() - i,
        {
            proof {
                assert(views.take(i + 1).drop_last() =~= views.take(i as int));
                assert(views.take(i + 1).last() == events@[i as int]@);
            }
            self.record_event(&events[i]);
            i += 1;
        }
        assert(views.take(events@.len() as int) =~= views);
    }
}

// ---------------------------------------------------------------------------
// The store
// ---------------------------------------------------------------------------

/// The usage of the server.
pub struct TokenUsageStore {
    data: TokenUsageFile,
    pending_events: EventQueue,
    pending_count: usize,
    next_event_id: u64,
    flushed_since_snapshot: usize,
    flushing: bool,
    gate: EmitGate,
}

impl TokenUsageStore {
    /// The usage so far.
    pub closed spec fn usage(&self) -> UsageView {
        self.data@
    }

    /// The events that are still to be written, the oldest first.
    pub closed spec fn pending(&self) -> Seq<UsageEventView> {
        event_queue::events_in(self.pending_events)
    }

    /// The number of the last event.
    pub closed spec fn last_id(&self) -> u64 {
        self.next_event_id
    }

    /// How many events were written since the last snapshot.
    pub closed spec fn flushed(&self) -> usize {
        self.flushed_since_snapshot
    }

    /// Whether events are being written.
    pub closed spec fn is_flushing(&self) -> bool {
        self.flushing
    }

    /// When listeners were last told of new usage.
    pub closed spec fn gate(&self) -> EmitGate {
        self.gate
    }

    /// The days are in order, and the events to write are counted.
    pub closed spec fn wf(&self) -> bool {
        &&& order::keys_ascend(self.data@.days)
        &&& self.pending_count == event_queue::events_in(self.pending_events).len()
    }

    /// The store at the start: with what is kept, if anything is, and the log replayed.
    pub fn new(stored: Option<TokenUsageFile>, events: &Vec<TokenUsageEvent>) -> (
        store: TokenUsageStore)
        requires
            stored matches Some(file) ==> order::keys_ascend(file@.days),
        ensures
            store.wf(),
            store.usage() == replayed(
                match stored {
                    Some(file) => file@,
                    None => empty_usage(),
                },
                event_queue::event_views(events@),
            ),
            store.pending().len() == 0,
            store.last_id() == store.usage().last_event_id,
            store.flushed() == 0,
            !store.is_flushing(),
            store.gate() == (EmitGate { last_ms: 0, pending: false }),
    {
        let mut data = match stored {
            Some(file) => file,
            None => TokenUsageFile::default(),
        };
        data.replay_usage_events(events);
        let next_event_id: u64 = data.last_event_id;
        TokenUsageStore {
            data,
            pending_events: event_queue::new_queue(),
            pending_count: 0,
            next_event_id,
            flushed_since_snapshot: 0,
            flushing: false,
            gate: EmitGate::new(),
        }
    }

    /// How the usage is shown.
    pub fn snapshot(&self) -> (snapshot: TokenUsageSnapshot)
        ensures
            is_snapshot(snapshot, self.usage()),
    {
        self.data.snapshot()
    }

    /// What to keep on disk.
    pub fn file(&self) -> (file: TokenUsageFile)
        ensures
            file@ == self.usage(),
    {
        self.data.clone()
    }

    /// How many events are still to be written.
    pub fn pending_count(&self) -> (count: usize)
        requires
            self.wf(),
        ensures
            count == self.pending().len(),
    {
        self.pending_count
    }

    /// Tests whether there is a number left for another event, and room to count it.
    pub fn has_room(&self) -> (room: bool)
        requires
            self.wf(),
        ensures
            room == (self.last_id() < u64::MAX && self.pending().len() < usize::MAX),
    {
        self.next_event_id < u64::MAX && self.pending_count < usize::MAX
    }

    /// Records what a report says was used, now.
    pub fn record_usage(&mut self, usage: &Json) -> (snapshot: TokenUsageSnapshot)
        requires
            old(self).wf(),
            old(self).last_id() < u64::MAX,
            old(self).pending().len() < usize::MAX,
        ensures
            final(self).wf(),
            is_snapshot(snapshot, final(self).usage()),
            final(self).last_id() == old(self).last_id() + 1,
            final(self).pending().len() == old(self).pending().len() + 1,
            final(self).pending().drop_last() == old(self).pending(),
            final(self).pending().last().id == final(self).last_id(),
            final(self).pending().last().delta == reported(usage.tree()),
            clock::is_date(final(self).pending().last().date),
            clock::is_timestamp(final(self).pending().last().updated_at),
            final(self).usage() == (UsageView {
                last_event_id: final(self).last_id(),
                ..recorded(
                    old(self).usage(),
                    final(self).pending().last().date,
                    final(self).pending().last().updated_at,
                    reported(usage.tree()),
                )
            }),
            final(self).flushed() == old(self).flushed(),
            final(self).is_flushing() == old(self).is_flushing(),
            final(self).gate() == old(self).gate(),
    {
        let date = clock::local_date();
        let updated_at = clock::local_timestamp();
        let ghost before = self.pending();
        let snapshot = self.record_usage_at(usage, date, updated_at);
        assert(self.pending().drop_last() =~= before);
        snapshot
    }

    /// Records what a report says was used, at the given time.
    pub fn record_usage_at(&mut self, usage: &Json, date: String, updated_at: String) -> (
        snapshot: TokenUsageSnapshot)
        requires
            old(self).wf(),
            old(self).last_id() < u64::MAX,
            old(self).pending().len() < usize::MAX,
        ensures
            final(self).wf(),
            is_snapshot(snapshot, final(self).usage()),
            final(self).last_id() == old(self).last_id() + 1,
            final(self).usage() == (UsageView {
                last_event_id: final(self).last_id(),
                ..recorded(old(self).usage(), date@, updated_at@, reported(usage.tree()))
            }),
            final(self).pending() == old(self).pending().push(
                UsageEventView {
                    id: final(self).last_id(),
                    date: date@,
                    updated_at: updated_at@,
                    delta: reported(usage.tree()),
                },
            ),
            final(self).flushed() == old(self).flushed(),
            final(self).is_flushing() == old(self).is_flushing(),
            final(self).gate() == old(self).gate(),
    {
        let delta = normalize_usage(usage);
        let id: u64 = self.next_event_id + 1;
        self.next_event_id = id;
        self.data.record(date.as_str(), updated_at.clone(), delta);
        self.data.last_event_id = id;
        let event = TokenUsageEvent { id, date, updated_at, delta };
        event_queue::push_event(&mut self.pending_events, event);
        self.pending_count = self.pending_count + 1;
        self.data.snapshot()
    }

    /// Forgets all usage, now. The numbering of events goes on. Gives how it is shown; what
    /// to keep on disk is then [`TokenUsageStore::file`].
    pub fn clear(&mut self) -> (snapshot: TokenUsageSnapshot)
        requires
            old(self).wf(),
        ensures
            final(self).wf(),
            is_snapshot(snapshot, final(self).usage()),
            final(self).usage() == (UsageView {
                updated_at: final(self).usage().updated_at,
                last_event_id: old(self).last_id(),
                ..empty_usage()
            }),
            final(self).usage().updated_at matches Some(time) && clock::is_timestamp(time),
            final(self).pending().len() == 0,
            final(self).last_id() == old(self).last_id(),
            final(self).flushed() == old(self).flushed(),
            final(self).is_flushing() == old(self).is_flushing(),
            final(self).gate() == old(self).gate(),
    {
        let now = clock::local_timestamp();
        self.clear_at(now)
    }

    /// Forgets all usage, at the given time.
    pub fn clear_at(&mut self, now: String) -> (snapshot: TokenUsageSnapshot)
        requires
            old(self).wf(),
        ensures
            final(self).wf(),
            is_snapshot(snapshot, final(self).usage()),
            final(self).usage() == (UsageView {
                updated_at: Some(now@),
                last_event_id: old(self).last_id(),
                ..empty_usage()
            }),
            final(self).pending().len() == 0,
            final(self).last_id() == old(self).last_id(),
            final(self).flushed() == old(self).flushed(),
            final(self).is_flushing() == old(self).is_flushing(),
            final(self).gate() == old(self).gate(),
    {
        let dropped = self.take_batch(usize::MAX);
        assert(self.pending().len() == 0);
        let mut data = TokenUsageFile::default();
        data.updated_at = Some(now);
        data.last_event_id = self.next_event_id;
        self.data = data;
        assert(self.usage() =~= (UsageView {
            updated_at: Some(now@),
            last_event_id: old(self).last_id(),
            ..empty_usage()
        }));
        self.data.snapshot()
    }

    /// Takes out events to write, the oldest first, at most `max` of them.
    pub fn take_batch(&mut self, max: usize) -> (batch: Vec<TokenUsageEvent>)
        requires
            old(self).wf(),
        ensures
            final(self).wf(),
            batch@.len() == (if old(self).pending().len() <= max {
                old(self).pending().len()
            } else {
                max as nat
            }),
            event_queue::event_views(batch@) == old(self).pending().take(batch@.len() as int),
            final(self).pending() == old(self).pending().skip(batch@.len() as int),
            final(self).usage() == old(self).usage(),
            final(self).last_id() == old(self).last_id(),
            final(self).flushed() == old(self).flushed(),
            final(self).is_flushing() == old(self).is_flushing(),
            final(self).gate() == old(self).gate(),
    {
        let ghost all = self.pending();
        let mut batch: Vec<TokenUsageEvent> = Vec::new();
        assert(event_queue::event_views(batch@) =~= all.take(0));
        assert(self.pending() =~= all.skip(0));
        while batch.len() < max
            invariant
                batch@.len() <= max,
                batch@.len() <= all.len(),
                self.wf(),
                all == old(self).pending(),
                all.len() <= usize::MAX,
                event_queue::event_views(batch@) == all.take(batch@.len() as int),
                self.pending() == all.skip(batch@.len() as int),
                self.usage() == old(self).usage(),
                self.last_id() == old(self).last_id(),
                self.flushed() == old(self).flushed(),
                self.is_flushing() == old(self).is_flushing(),
                self.gate() == old(self).gate(),
            ensures
                batch@.len() == max || self.pending().len() == 0,
            decreases max - batch@.len(),
        {
            let ghost n = batch@.len() as int;
            match event_queue::pop_event(&mut self.pending_events) {
                Some(event) => {
                    self.pending_count = self.pending_count - 1;
                    let ghost so_far = event_queue::event_views(batch@);
                    batch.push(event);
                    proof {
                        assert(event@ == all[n]);
                        assert(event_queue::event_views(batch@) =~= so_far.push(event@));
                        assert(all.take(n + 1) =~= all.take(n).push(all[n]));
                        assert(all.skip(n).skip(1) =~= all.skip(n + 1));
                    }
                },
                None => {
                    break;
                },
            }
        }
        batch
    }

    /// Notes that events were written. Says whether a new snapshot is due.
    pub fn note_flushed(&mut self, drained: usize) -> (compact: bool)
        requires
            old(self).wf(),
        ensures
            final(self).wf(),
            final(self).flushed() == old(self).flushed().wrapping_add(drained),
            compact == (final(self).flushed() >= USAGE_COMPACT_EVERY_EVENTS),
            final(self).usage() == old(self).usage(),
            final(self).pending() == old(self).pending(),
            final(self).last_id() == old(self).last_id(),
            final(self).is_flushing() == old(self).is_flushing(),
            final(self).gate() == old(self).gate(),
    {
        self.flushed_since_snapshot = self.flushed_since_snapshot.wrapping_add(drained);
        self.flushed_since_snapshot >= USAGE_COMPACT_EVERY_EVENTS
    }

    /// Notes that a new snapshot was written.
    pub fn note_compacted(&mut self)
        requires
            old(self).wf(),
        ensures
            final(self).wf(),
            final(self).flushed() == 0,
            final(self).usage() == old(self).usage(),
            final(self).pending() == old(self).pending(),
            final(self).last_id() == old(self).last_id(),
            final(self).is_flushing() == old(self).is_flushing(),
            final(self).gate() == old(self).gate(),
    {
        self.flushed_since_snapshot = 0;
    }

    /// Starts to write events, unless that is going on. Says whether it was started.
    pub fn begin_flush(&mut self) -> (begun: bool)
        requires
            old(self).wf(),
        ensures
            final(self).wf(),
            begun == !old(self).is_flushing(),
            final(self).is_flushing(),
            final(self).usage() == old(self).usage(),
            final(self).pending() == old(self).pending(),
            final(self).last_id() == old(self).last_id(),
            final(self).flushed() == old(self).flushed(),
            final(self).gate() == old(self).gate(),
    {
        let begun = !self.flushing;
        self.flushing = true;
        begun
    }

    /// Notes that a batch of `drained` events was written. Says whether to go on: while
    /// there was something to write, or something came in.
    pub fn continue_flush(&mut self, drained: usize) -> (go_on: bool)
        requires
            old(self).wf(),
        ensures
            final(self).wf(),
            go_on == (drained > 0 || old(self).pending().len() > 0),
            final(self).is_flushing() == (if go_on && drained == 0 {
                true
            } else if drained == 0 {
                false
            } else {
                old(self).is_flushing()
            }),
            final(self).usage() == old(self).usage(),
            final(self).pending() == old(self).pending(),
            final(self).last_id() == old(self).last_id(),
            final(self).flushed() == old(self).flushed(),
            final(self).gate() == old(self).gate(),
    {
        if drained > 0 {
            return true;
        }
        self.flushing = self.pending_count > 0;
        self.pending_count > 0
    }

    /// Notes at `now` that usage came in, and says when to tell the listeners.
    pub fn schedule_emit(&mut self, now: u64) -> (plan: EmitPlan)
        requires
            old(self).wf(),
        ensures
            final(self).wf(),
            plan == old(self).gate().plan(now, USAGE_EVENT_EMIT_MS),
            final(self).gate() == (match plan {
                EmitPlan::Now => EmitGate { last_ms: now, pending: old(self).gate().pending },
                EmitPlan::After(_) => EmitGate {
                    last_ms: old(self).gate().last_ms,
                    pending: true,
                },
                EmitPlan::Covered => old(self).gate(),
            }),
            final(self).usage() == old(self).usage(),
            final(self).pending() == old(self).pending(),
            final(self).last_id() == old(self).last_id(),
            final(self).flushed() == old(self).flushed(),
            final(self).is_flushing() == old(self).is_flushing(),
    {
        self.gate.note(now, USAGE_EVENT_EMIT_MS)
    }

    /// Notes at `now` that the waiting notice goes out.
    pub fn emit_fired(&mut self, now: u64)
        requires
            old(self).wf(),
        ensures
            final(self).wf(),
            final(self).gate() == (EmitGate { last_ms: now, pending: false }),
            final(self).usage() == old(self).usage(),
            final(self).pending() == old(self).pending(),
            final(self).last_id() == old(self).last_id(),
            final(self).flushed() == old(self).flushed(),
            final(self).is_flushing() == old(self).is_flushing(),
    {
        self.gate.fired(now);
    }

    /// Notes at `now` that the listeners are told at once.
    pub fn emit_now(&mut self, now: u64)
        requires
            old(self).wf(),
        ensures
            final(self).wf(),
            final(self).gate() == (EmitGate { last_ms: now, pending: old(self).gate().pending }),
            final(self).usage() == old(self).usage(),
            final(self).pending() == old(self).pending(),
            final(self).last_id() == old(self).last_id(),
            final(self).flushed() == old(self).flushed(),
            final(self).is_flushing() == old(self).is_flushing(),
    {
        self.gate.forced(now);
    }
}

} // verus!
