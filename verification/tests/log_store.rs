use agent_mcp::commands::{get_log_detail, get_log_page, NO_LOG};
use agent_mcp::json::Json;
use agent_mcp::logs::{redact_value, LogDraft, LogLevel, LogStore, MAX_LOGS};
use agent_mcp::throttle::{EmitGate, EmitPlan};

fn json(text: &str) -> Json {
    Json::parse(text).unwrap()
}

#[test]
fn redacts_secret_like_keys() {
    let mut store = LogStore::default();
    let entry = store.push(
        LogLevel::Info,
        "test",
        None,
        None,
        "hello",
        Some(json(
            r#"{"api_key": "sk-test", "nested": {"authorization": "Bearer x"}}"#,
        )),
    );
    let detail = entry.detail.unwrap().into_value();
    assert_eq!(detail["api_key"], "••••");
    assert_eq!(detail["nested"]["authorization"], "••••");
}

#[test]
fn clear_removes_memory_logs() {
    let mut store = LogStore::default();
    store.push(LogLevel::Info, "test", None, None, "hello", None);
    assert_eq!(store.clear_stats().total, 0);
}

#[test]
fn pages_and_filters_lightweight_logs() {
    let mut store = LogStore::default();
    store.push(
        LogLevel::Info,
        "api",
        None,
        None,
        "one",
        Some(json(r#"{"a": 1}"#)),
    );
    store.push(LogLevel::Debug, "stream", None, None, "two", None);
    store.push(LogLevel::Info, "tool", None, None, "three", None);

    let stats = store.stats();
    assert_eq!(stats.total, 3);
    assert_eq!(stats.info, 2);
    assert_eq!(stats.debug, 1);

    let page = store.page(Some(LogLevel::Info), 0, 10);
    assert_eq!(page.total, 2);
    assert_eq!(page.entries.len(), 2);
    assert_eq!(page.entries[0].summary, "one");
    assert!(page.entries[0].has_detail);
    assert_eq!(page.entries[1].summary, "three");
}

#[test]
fn zero_limit_returns_empty_page() {
    let mut store = LogStore::default();
    store.push(LogLevel::Info, "api", None, None, "one", None);

    let page = store.page(None, 0, 0);

    assert_eq!(page.total, 1);
    assert_eq!(page.offset, 0);
    assert_eq!(page.limit, 0);
    assert!(page.entries.is_empty());
}

#[test]
fn gets_detail_by_id() {
    let mut store = LogStore::default();
    let entry = store.push(
        LogLevel::Warn,
        "test",
        Some("req".to_string()),
        Some("task".to_string()),
        "detail",
        Some(json(r#"{"path": "/tmp/a"}"#)),
    );

    let detail = store.detail(entry.id).unwrap();
    assert_eq!(detail.id, entry.id);
    assert_eq!(detail.detail.unwrap().into_value()["path"], "/tmp/a");
    assert!(store.detail(entry.id + 1).is_none());
}

#[test]
fn keeps_more_than_one_million_logs_and_drops_oldest() {
    let mut store = LogStore::default();
    for index in 0..(MAX_LOGS + 5) {
        let level = if index % 2 == 0 {
            LogLevel::Info
        } else {
            LogLevel::Debug
        };
        store.push(level, "bulk", None, None, "line", None);
    }

    let stats = store.stats();
    assert_eq!(stats.total, MAX_LOGS);
    assert_eq!(stats.dropped, 5);
    assert_eq!(stats.latest_id, Some((MAX_LOGS + 5) as u64));

    let first = store.page(None, 0, 1);
    assert_eq!(first.entries[0].id, 6);
    let last = store.page(None, MAX_LOGS - 1, 1);
    assert_eq!(last.entries[0].id, (MAX_LOGS + 5) as u64);
}

#[test]
fn secrets_are_masked_at_any_depth() {
    let value = json(
        r#"{"list": [{"Access_Token": 5, "note": "x"}], "CLIENT_SECRET": {"a": 1}, "monkey": "m", "plain": true}"#,
    );
    let once = redact_value(&value);
    assert_eq!(
        once.into_value(),
        json(
            r#"{"list": [{"Access_Token": "••••", "note": "x"}], "CLIENT_SECRET": "••••", "monkey": "••••", "plain": true}"#
        )
        .into_value()
    );
    assert_eq!(redact_value(&once).into_value(), once.into_value());
}

#[test]
fn numbers_go_on_after_a_clear() {
    let mut store = LogStore::new();
    store.push(LogLevel::Error, "a", None, None, "one", None);
    store.push(LogLevel::Warn, "a", None, None, "two", None);
    let stats = store.stats();
    assert_eq!(
        stats.total,
        stats.debug + stats.info + stats.warn + stats.error
    );
    store.clear_stats();
    assert!(store.detail(1).is_none());
    let third = store.push(LogLevel::Info, "a", None, None, "three", None);
    assert_eq!(third.id, 3);
    assert_eq!(store.page(None, 0, 9).entries[0].id, 3);
}

#[test]
fn an_entry_keeps_its_time() {
    let mut store = LogStore::new();
    let entry = store.push_at(
        "12:00:00.000".to_string(),
        LogDraft::new(LogLevel::Info, "s", None, None, "x", None),
    );
    assert_eq!(entry.time, "12:00:00.000");
    let now = store.push(LogLevel::Info, "s", None, None, "y", None);
    assert_eq!(now.time.len(), 12);
    assert_eq!(&now.time[2..3], ":");
    assert_eq!(&now.time[8..9], ".");
}

#[test]
fn negative_bounds_count_as_none() {
    let mut store = LogStore::new();
    store.push(LogLevel::Info, "s", None, None, "x", None);
    store.push(LogLevel::Info, "s", None, None, "y", None);
    let page = get_log_page(&store, None, -5, 1);
    assert_eq!(page.offset, 0);
    assert_eq!(page.entries.len(), 1);
    assert_eq!(get_log_page(&store, None, 1, -1).entries.len(), 0);
    assert_eq!(get_log_page(&store, None, 1, 900).limit, 500);
    assert_eq!(get_log_page(&store, None, 9, 9).offset, 2);
    assert_eq!(get_log_detail(&store, 2).unwrap().summary, "y");
    assert_eq!(get_log_detail(&store, 3).unwrap_err(), NO_LOG);
}

#[test]
fn listeners_are_told_once_in_an_interval() {
    let mut gate = EmitGate::new();
    assert_eq!(gate.note(1_000, 250), EmitPlan::Now);
    assert_eq!(gate.note(1_100, 250), EmitPlan::After(150));
    assert_eq!(gate.note(1_150, 250), EmitPlan::Covered);
    gate.fired(1_250);
    assert_eq!(gate.note(1_499, 250), EmitPlan::After(1));
    gate.fired(1_500);
    gate.forced(1_600);
    assert_eq!(gate.note(1_850, 250), EmitPlan::Now);

    let mut store = LogStore::new();
    assert_eq!(store.schedule_stats_event(5_000), EmitPlan::Now);
    assert_eq!(store.schedule_stats_event(5_040), EmitPlan::After(60));
    store.stats_event_fired(5_100);
    store.emit_stats_event_now(5_200);
    assert_eq!(store.schedule_stats_event(5_300), EmitPlan::Now);
}
