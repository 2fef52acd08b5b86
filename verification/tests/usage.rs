use agent_mcp::counts::{
    first_number_field, nested_number_field, number_field, number_value, sum_numbers,
};
use agent_mcp::event_queue::TokenUsageEvent;
use agent_mcp::json::Json;
use agent_mcp::throttle::EmitPlan;
use agent_mcp::token_usage::{
    normalize_usage, TokenUsageFile, TokenUsageStore, USAGE_COMPACT_EVERY_EVENTS,
};

fn json(text: &str) -> Json {
    Json::parse(text).unwrap()
}

fn empty_store() -> TokenUsageStore {
    TokenUsageStore::new(None, &Vec::new())
}

fn event(id: u64, updated_at: &str, usage: &str) -> TokenUsageEvent {
    TokenUsageEvent {
        id,
        date: "2026-05-25".to_string(),
        updated_at: updated_at.to_string(),
        delta: normalize_usage(&json(usage)),
    }
}

#[test]
fn normalizes_common_usage_fields() {
    let usage = json(
        r#"{"input_tokens": 100, "output_tokens": 30, "cache_read_input_tokens": 7, "cache_creation_input_tokens": 11}"#,
    );

    let normalized = normalize_usage(&usage);

    assert_eq!(normalized.input_tokens, 100);
    assert_eq!(normalized.output_tokens, 30);
    assert_eq!(normalized.cache_read_tokens, 7);
    assert_eq!(normalized.cache_write_tokens, 11);
    assert_eq!(normalized.total_tokens, 148);
}

#[test]
fn normalizes_nested_cache_creation_when_explicit_field_is_missing() {
    let usage = json(
        r#"{"input_tokens": 10, "output_tokens": 5, "cache_creation": {"ephemeral_5m_input_tokens": 20, "ephemeral_1h_input_tokens": "30"}}"#,
    );

    let normalized = normalize_usage(&usage);

    assert_eq!(normalized.cache_write_tokens, 50);
    assert_eq!(normalized.total_tokens, 65);
}

#[test]
fn normalizes_openai_compatible_cache_fields_without_double_counting() {
    let usage = json(
        r#"{"prompt_tokens": 100, "completion_tokens": 30, "prompt_tokens_details": {"cached_tokens": 70, "cache_creation_tokens": 20}}"#,
    );

    let normalized = normalize_usage(&usage);

    assert_eq!(normalized.input_tokens, 10);
    assert_eq!(normalized.output_tokens, 30);
    assert_eq!(normalized.cache_read_tokens, 70);
    assert_eq!(normalized.cache_write_tokens, 20);
    assert_eq!(normalized.total_tokens, 130);
}

#[test]
fn prefers_upstream_total_when_present() {
    let usage = json(r#"{"input_tokens": 10, "output_tokens": 5, "total_tokens": 12}"#);

    assert_eq!(normalize_usage(&usage).total_tokens, 12);
}

#[test]
fn aggregates_totals_and_daily_rows() {
    let mut data = TokenUsageFile::default();
    data.record(
        "2026-05-22",
        "2026-05-22T10:00:00+08:00".to_string(),
        normalize_usage(&json(r#"{"input_tokens": 10, "output_tokens": 2}"#)),
    );
    data.record(
        "2026-05-22",
        "2026-05-22T10:01:00+08:00".to_string(),
        normalize_usage(&json(r#"{"input_tokens": 20, "cache_read_input_tokens": 3}"#)),
    );

    let snapshot = data.snapshot();

    assert_eq!(snapshot.totals.requests, 2);
    assert_eq!(snapshot.totals.input_tokens, 30);
    assert_eq!(snapshot.totals.cache_read_tokens, 3);
    assert_eq!(snapshot.days[0].requests, 2);
    assert_eq!(snapshot.days[0].total_tokens, 35);
}

#[test]
fn clear_resets_memory_and_persisted_file() {
    let mut store = empty_store();
    store.record_usage(&json(r#"{"input_tokens": 3, "output_tokens": 4}"#));
    store.take_batch(10);
    let cleared = store.clear();

    assert_eq!(cleared.totals.requests, 0);
    assert_eq!(store.file().totals.requests, 0);
}

#[test]
fn persists_and_loads_usage_file() {
    let mut store = empty_store();
    store.record_usage(&json(r#"{"input_tokens": 8, "output_tokens": 5}"#));
    let events = store.take_batch(10);
    assert_eq!(events.len(), 1);
    let loaded = TokenUsageStore::new(Some(store.file()), &events).snapshot();

    assert_eq!(loaded.totals.requests, 1);
    assert_eq!(loaded.totals.total_tokens, 13);
    assert_eq!(loaded.days.len(), 1);
    assert_eq!(loaded.days[0].date.len(), 10);
    assert!(loaded.updated_at.unwrap().contains('T'));
}

#[test]
fn replays_append_log_without_double_counting_snapshot_events() {
    let mut data = TokenUsageFile::default();
    let first = event(1, "2026-05-25T10:00:00+08:00", r#"{"input_tokens": 1}"#);
    let second = event(2, "2026-05-25T10:01:00+08:00", r#"{"output_tokens": 2}"#);
    data.record_event(&first);

    let mut loaded = data.clone();
    loaded.replay_usage_events(&vec![first, second]);
    let snapshot = loaded.snapshot();

    assert_eq!(snapshot.totals.requests, 2);
    assert_eq!(snapshot.totals.input_tokens, 1);
    assert_eq!(snapshot.totals.output_tokens, 2);
}

#[test]
fn records_usage_concurrently_without_losing_totals() {
    let mut store = empty_store();
    for _ in 0..1_000 {
        store.record_usage(&json(r#"{"input_tokens": 2, "output_tokens": 3}"#));
    }
    assert_eq!(store.pending_count(), 1_000);
    assert_eq!(store.take_batch(5_000).len(), 1_000);
    let snapshot = store.snapshot();

    assert_eq!(snapshot.totals.requests, 1_000);
    assert_eq!(snapshot.totals.input_tokens, 2_000);
    assert_eq!(snapshot.totals.output_tokens, 3_000);
    assert_eq!(snapshot.totals.total_tokens, 5_000);
    assert_eq!(store.pending_count(), 0);
}

#[test]
fn events_leave_in_the_order_they_came() {
    let mut store = empty_store();
    for n in 1..=3u64 {
        store.record_usage_at(
            &json(&format!("{{\"input_tokens\": {n}}}")),
            format!("2026-01-0{n}"),
            "t".to_string(),
        );
    }
    let batch = store.take_batch(2);
    assert_eq!(batch.len(), 2);
    assert_eq!((batch[0].id, batch[0].delta.input_tokens), (1, 1));
    assert_eq!((batch[1].id, batch[1].date.as_str()), (2, "2026-01-02"));
    assert_eq!(store.take_batch(2).len(), 1);
    assert_eq!(store.take_batch(2).len(), 0);
    let days: Vec<String> = store.snapshot().days.into_iter().map(|day| day.date).collect();
    assert_eq!(days.len(), 3);
}

#[test]
fn the_days_add_up() {
    let mut data = TokenUsageFile::default();
    for (day, n) in [("2026-01-02", 5u64), ("2026-01-01", 7), ("2026-01-02", 1)] {
        data.record(
            day,
            "t".to_string(),
            normalize_usage(&json(&format!("{{\"input_tokens\": {n}}}"))),
        );
    }
    let snapshot = data.snapshot();
    assert_eq!(snapshot.days.len(), 2);
    let sum: u64 = snapshot.days.iter().map(|day| day.input_tokens).sum();
    assert_eq!(sum, snapshot.totals.input_tokens);
    assert_eq!(sum, 13);
}

#[test]
fn a_flush_runs_once_and_compacts_now_and_again() {
    let mut store = empty_store();
    assert!(store.begin_flush());
    assert!(!store.begin_flush());
    assert!(!store.note_flushed(1));
    assert!(store.note_flushed(USAGE_COMPACT_EVERY_EVENTS));
    store.note_compacted();
    assert!(!store.note_flushed(1));
    assert!(!store.continue_flush(0));
    assert!(store.begin_flush());
}

#[test]
fn usage_notices_are_spaced() {
    let mut store = empty_store();
    assert_eq!(store.schedule_emit(9_000), EmitPlan::Now);
    assert_eq!(store.schedule_emit(9_100), EmitPlan::After(150));
    store.emit_fired(9_250);
    store.emit_now(9_300);
    assert_eq!(store.schedule_emit(9_400), EmitPlan::After(150));
}

#[test]
fn numbers_are_read_leniently() {
    assert_eq!(number_value(&json("12")), 12);
    assert_eq!(number_value(&json("\"34\"")), 34);
    assert_eq!(number_value(&json("\"x\"")), 0);
    assert_eq!(number_value(&json("-1")), 0);
    assert_eq!(number_value(&json("null")), 0);
    let value = json(r#"{"a": 0, "b": "5", "c": {"d": 6}, "e": [1, {"f": 2}, "3"]}"#);
    assert_eq!(number_field(&value, "b"), 5);
    assert_eq!(number_field(&value, "x"), 0);
    assert_eq!(nested_number_field(&value, "c", "d"), 6);
    assert_eq!(first_number_field(&value, &["a", "x", "b"]), 5);
    assert_eq!(sum_numbers(&value), 17);
}

#[test]
fn usage_is_recorded_under_its_day() {
    let mut store = empty_store();
    store.record_usage(&json(r#"{"input_tokens": 1}"#));
    let batch = store.take_batch(10);
    let date: Vec<char> = batch[0].date.chars().collect();
    assert_eq!(date.len(), 10);
    for (index, c) in date.iter().enumerate() {
        if index == 4 || index == 7 {
            assert_eq!(*c, '-');
        } else {
            assert!(c.is_ascii_digit());
        }
    }
    let time: Vec<char> = batch[0].updated_at.chars().collect();
    assert_eq!(time[10], 'T');
    assert!(batch[0].updated_at.starts_with(&batch[0].date));
    let offset = time.len() - 6;
    assert!(time[offset] == '+' || time[offset] == '-');
    assert_eq!(time[offset + 3], ':');
    let cleared = store.clear();
    assert_eq!(cleared.updated_at.unwrap().chars().nth(10), Some('T'));
}
