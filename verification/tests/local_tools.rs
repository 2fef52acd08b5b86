use agent_mcp::json::Json;
use agent_mcp::logs::{LogLevel, LogStore};
use agent_mcp::stream::ToolUse;
use agent_mcp::tools::{
    command_answer, command_timeout_message, contains_shell_command,
    effective_command_timeout_seconds, ensure_list_dir_path, is_recursive_grep_command,
    list_answer, local_tool_failure_level, plan_tool, read_answer, required_string, resolve_path,
    Platform,
    should_use_long_command_timeout, tool_call_log, tool_outcome_log, write_answer, PathState,
    ToolPlan,
};

const CWD: &str = "/tmp/project";

fn json(text: &str) -> Json {
    Json::parse(text).unwrap()
}

fn tool_use(id: &str, name: &str, input: &str) -> ToolUse {
    ToolUse {
        id: id.to_string(),
        name: name.to_string(),
        input: json(input),
    }
}

/// Calls a tool that cannot work and logs it. Gives the error.
fn failing_call(store: &mut LogStore, task_id: &str, call: &ToolUse) -> String {
    let error = match plan_tool(&Platform::current(), CWD, call) {
        ToolPlan::List(path) => ensure_list_dir_path(CWD, &path, PathState::Missing).unwrap_err(),
        ToolPlan::Refuse(reason) => reason,
        _ => panic!("the call can work"),
    };
    store.push_draft(tool_call_log(call, CWD, task_id));
    store.push_draft(tool_outcome_log(call, CWD, task_id, 12, &Err(error.clone())));
    error
}

#[test]
fn command_timeout_is_raised_for_recursive_or_long_commands() {
    assert_eq!(
        effective_command_timeout_seconds("grep -rl \"needle\" .", Some(10)),
        60
    );
    assert_eq!(
        effective_command_timeout_seconds("rg \"needle\" .", Some(10)),
        60
    );
    assert_eq!(
        effective_command_timeout_seconds("cargo test", Some(30)),
        60
    );
    assert_eq!(effective_command_timeout_seconds("pwd", Some(5)), 5);
}

#[test]
fn tool_failure_log_includes_error_summary_and_detail() {
    let mut store = LogStore::new();
    let call = tool_use("tool-1", "list_dir", r#"{"path": "missing"}"#);

    let error = failing_call(&mut store, "task-1", &call);

    let page = store.page(Some(LogLevel::Warn), 0, 10);
    assert_eq!(page.total, 1);
    assert_eq!(store.page(Some(LogLevel::Error), 0, 10).total, 0);
    let entry = &page.entries[0];
    assert!(entry.summary.starts_with("本地工具 list_dir 失败："));
    assert!(entry.summary.contains(&error));

    let detail = store.detail(entry.id).unwrap().detail.unwrap().into_value();
    assert_eq!(detail["tool"], "list_dir");
    assert_eq!(detail["input"]["path"], "missing");
    assert_eq!(detail["workdir"], CWD);
    assert!(!detail["error"].as_str().unwrap().is_empty());
    assert!(detail["elapsed_ms"].is_u64());
}

#[test]
fn list_dir_missing_absolute_path_returns_actionable_warning() {
    let mut store = LogStore::new();
    let call = tool_use(
        "tool-abs",
        "list_dir",
        r#"{"path": "/tmp/project/missing-absolute"}"#,
    );

    let error = failing_call(&mut store, "task-abs", &call);

    assert!(error.contains("路径不存在"));
    assert!(error.contains("workdir"));
    assert_eq!(store.page(Some(LogLevel::Error), 0, 10).total, 0);
    let id = store.page(Some(LogLevel::Warn), 0, 10).entries[0].id;
    let detail = store.detail(id).unwrap().detail.unwrap().into_value();
    assert_eq!(detail["tool"], "list_dir");
    assert_eq!(detail["workdir"], CWD);
    assert_eq!(detail["input"]["path"], "/tmp/project/missing-absolute");
    assert!(!detail["error"].as_str().unwrap().is_empty());
}

#[test]
fn run_command_missing_command_logs_diagnostic_detail() {
    let mut store = LogStore::new();
    let call = tool_use("tool-2", "run_command", "{}");

    failing_call(&mut store, "task-2", &call);

    let page = store.page(Some(LogLevel::Warn), 0, 10);
    assert_eq!(page.total, 1);
    assert_eq!(store.page(Some(LogLevel::Error), 0, 10).total, 0);
    let entry = &page.entries[0];
    assert!(entry.summary.contains("缺少参数：command"));

    let detail = store.detail(entry.id).unwrap().detail.unwrap().into_value();
    assert_eq!(detail["tool"], "run_command");
    assert_eq!(detail["workdir"], CWD);
    assert_eq!(detail["input"], json("{}").into_value());
}

#[test]
fn unknown_local_tool_still_logs_error() {
    let mut store = LogStore::new();
    let call = tool_use("tool-unknown", "unknown_tool", "{}");

    failing_call(&mut store, "task-unknown", &call);

    assert_eq!(store.page(Some(LogLevel::Error), 0, 10).total, 1);
}

#[test]
fn run_command_non_zero_exit_returns_output_instead_of_tool_error() {
    let output = command_answer(Some(1), b"", b"");
    assert!(output.contains("exit_code: Some(1)"));
}

#[test]
fn a_command_answers_with_what_it_printed() {
    assert_eq!(
        command_answer(Some(-1), "输出".as_bytes(), b"e\xff"),
        "exit_code: Some(-1)\nstdout:\n输出\nstderr:\ne\u{fffd}"
    );
    assert_eq!(
        command_answer(None, b"", b""),
        "exit_code: None\nstdout:\n\nstderr:\n"
    );
    let long = command_answer(Some(0), &vec![b'x'; 130_000], b"");
    assert!(long.ends_with("\n...[truncated]"));
    assert_eq!(long.chars().count(), 120_000 + 15);
}

#[test]
fn timeouts_are_bounded() {
    assert_eq!(effective_command_timeout_seconds("pwd", None), 60);
    assert_eq!(effective_command_timeout_seconds("pwd", Some(0)), 1);
    assert_eq!(effective_command_timeout_seconds("pwd", Some(9_999)), 600);
    assert_eq!(effective_command_timeout_seconds("npm ci", Some(200)), 200);
    assert!(should_use_long_command_timeout("cd x && CARGO build"));
    assert!(!should_use_long_command_timeout("echo hi"));
    assert!(contains_shell_command("  find .", "find"));
    assert!(contains_shell_command("find", "find"));
    assert!(!contains_shell_command("pathfinder x", "find"));
    assert!(is_recursive_grep_command("grep --recursive x"));
    assert!(!is_recursive_grep_command("grep x file"));
    assert_eq!(command_timeout_message("pwd", 5), "命令超过 5 秒未完成");
    assert!(command_timeout_message("GREP -R x", 60).starts_with("搜索命令超时：命令超过 60 秒未完成"));
}

#[test]
fn calls_are_planned() {
    let planned = |name: &str, input: &str| plan_tool(&Platform::current(), CWD, &tool_use("u", name, input));
    match planned("read_file", r#"{"path": "a/b"}"#) {
        ToolPlan::Read(path) => assert_eq!(path, "/tmp/project/a/b"),
        _ => panic!("no plan to read"),
    }
    match planned("write_file", r#"{"path": "/x", "content": "y"}"#) {
        ToolPlan::Write(path, content) => assert_eq!((path.as_str(), content.as_str()), ("/x", "y")),
        _ => panic!("no plan to write"),
    }
    match planned("list_dir", "{}") {
        ToolPlan::List(path) => assert_eq!(path, "/tmp/project/."),
        _ => panic!("no plan to list"),
    }
    match planned("run_command", r#"{"command": "rg x", "timeout_seconds": 5}"#) {
        ToolPlan::Run(command, seconds) => assert_eq!((command.as_str(), seconds), ("rg x", 60)),
        _ => panic!("no plan to run"),
    }
    match planned("write_file", r#"{"path": "/x", "content": ""}"#) {
        ToolPlan::Refuse(reason) => assert_eq!(reason, "缺少参数：content"),
        _ => panic!("an argument is missing"),
    }
    match planned("fly", "{}") {
        ToolPlan::Refuse(reason) => assert_eq!(reason, "未知工具：fly"),
        _ => panic!("the tool is unknown"),
    }
}

#[test]
fn arguments_and_paths() {
    let input = json(r#"{"a": "x", "b": "", "c": 1}"#);
    assert_eq!(required_string(&input, "a").unwrap(), "x");
    assert_eq!(required_string(&input, "b").unwrap_err(), "缺少参数：b");
    assert!(required_string(&input, "c").is_err());
    assert_eq!(resolve_path(&Platform::current(), "/a/", "b"), "/a/b");
    assert_eq!(resolve_path(&Platform::current(), "/a", "/b"), "/b");
    assert_eq!(resolve_path(&Platform::current(), "", "b"), "b");
    assert!(ensure_list_dir_path("/w", "/p", PathState::Directory).is_ok());
    assert_eq!(
        ensure_list_dir_path("/w", "/p", PathState::NoDirectory).unwrap_err(),
        "不是目录：/p。请传入目录路径"
    );
    assert_eq!(
        ensure_list_dir_path("/w", "/p", PathState::Unknown("denied".to_string())).unwrap_err(),
        "denied"
    );
}

#[test]
fn a_list_is_sorted_and_bounded() {
    let entries = vec![
        ("b".to_string(), false),
        ("a".to_string(), true),
        ("B".to_string(), false),
    ];
    assert_eq!(list_answer(&entries), "B\na/\nb");
    let many: Vec<(String, bool)> = (0..500).map(|i| (format!("f{i:03}"), false)).collect();
    let lines: Vec<String> = list_answer(&many).split('\n').map(|l| l.to_string()).collect();
    assert_eq!(lines.len(), 401);
    assert_eq!(lines[0], "...");
    assert_eq!(lines[400], "f399");
    assert_eq!(list_answer(&Vec::new()), "");
}

#[test]
fn files_are_read_and_written() {
    assert_eq!(read_answer("short"), "short");
    assert!(read_answer(&"x".repeat(220_001)).ends_with("...[truncated]"));
    assert!(write_answer("/x").contains("/x"));
    assert_eq!(local_tool_failure_level("read_file"), LogLevel::Warn);
    assert_eq!(local_tool_failure_level("other"), LogLevel::Error);
    let call = tool_use("u", "read_file", "{}");
    let log = tool_outcome_log(&call, CWD, "t", 3, &Ok("four".to_string()));
    assert_eq!(log.level, LogLevel::Info);
    assert_eq!(log.summary, "本地工具 read_file 完成");
}
