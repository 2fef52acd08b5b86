//! The tools that the model calls on the local machine: what a call asks for, how long a
//! command may run, and what is answered and logged.

use vstd::prelude::*;
use vstd::string::*;

use crate::claude;
use crate::json;
use crate::json::{Json, JsonObject, JsonTree};
use crate::logs::{LogDraft, LogDraftView, LogLevel};
use crate::order;
use crate::stream::{ToolUse, ToolUseView};
use crate::text;

verus! {

/// The number of characters of a file that are handed to the model.
pub const MAX_FILE_CHARS: usize = 220_000;

/// The number of characters of a command's output that are handed to the model.
pub const MAX_COMMAND_CHARS: usize = 120_000;

/// The number of directory entries that are listed.
pub const MAX_LIST_ENTRIES: usize = 400;

// ---------------------------------------------------------------------------
// Arguments
// ---------------------------------------------------------------------------

/// The text of an argument that must not be empty.
pub open spec fn argument(input: JsonTree, key: Seq<char>) -> Option<Seq<char>> {
    match input.get_text(key) {
        Some(value) => if value.len() == 0 {
            None
        } else {
            Some(value)
        },
        None => None,
    }
}

/// What is answered where an argument is missing.
pub open spec fn missing_text(key: Seq<char>) -> Seq<char> {
    "缺少参数："@ + key
}

/// The text of an argument that must not be empty.
pub fn required_string<'a>(input: &'a Json, key: &str) -> (result: Result<&'a str, String>)
    ensures
        match result {
            Ok(value) => argument(input.tree(), key@) == Some(value@),
            Err(message) => argument(input.tree(), key@) is None && message@ == missing_text(key@),
        },
{
    if let Some(value) = input.get_str(key) {
        if !value.is_empty() {
            return Ok(value);
        }
    }
    let mut message = "缺少参数：".to_owned();
    message.append(key);
    Err(message)
}

/// How paths are written on the machine that the server runs on.
pub struct Platform {
    separator: char,
}

impl Platform {
    /// What separates the parts of a path.
    pub closed spec fn separator(&self) -> char {
        self.separator
    }

    /// The platform of this machine. Which one it is follows the machine: nothing is said of
    /// it.
    pub fn current() -> (platform: Platform) {
        Platform { separator: main_separator() }
    }
}

/// `std::path::MAIN_SEPARATOR`: what separates the parts of a path on this machine. It follows
/// the machine: nothing is said of it.
#[verifier::external_body]
fn main_separator() -> (separator: char) {
    std::path::MAIN_SEPARATOR
}

/// Where a path leads from a directory on Windows, by the rules of `std::path::Path::join`
/// for drives, shares and roots.
pub uninterp spec fn windows_path(cwd: Seq<char>, path: Seq<char>) -> Seq<char>;

/// Whether a path starts at the root of a drive: with a letter, a colon and a backslash.
pub open spec fn starts_at_drive(path: Seq<char>) -> bool {
    &&& path.len() >= 3
    &&& 'a' <= path[0] <= 'z' || 'A' <= path[0] <= 'Z'
    &&& path[1] == ':' && path[2] == '\\'
}

/// `std::path::Path::join` on Windows, which is where a backslash separates the parts of a
/// path. A path that starts at the root of a drive is absolute there and replaces the
/// directory; what comes of other paths, with their drives, shares and roots without a drive,
/// is left to the name of the result.
#[verifier::external_body]
fn join_on_windows(platform: &Platform, cwd: &str, path: &str) -> (joined: String)
    requires
        platform.separator() == '\\',
    ensures
        joined@ == windows_path(cwd@, path@),
        starts_at_drive(path@) ==> joined@ == path@,
{
    std::path::Path::new(cwd).join(path).to_string_lossy().into_owned()
}

/// Where a path leads from `cwd`, where slashes separate the parts of a path: to the path
/// itself where it starts at the root, else below `cwd`.
pub open spec fn slash_path(cwd: Seq<char>, path: Seq<char>) -> Seq<char> {
    if (path.len() > 0 && path[0] == '/') || cwd.len() == 0 {
        path
    } else if cwd.last() == '/' {
        cwd + path
    } else {
        cwd + seq!['/'] + path
    }
}

/// Where a path leads from `cwd`, where slashes separate the parts of a path.
fn join_by_slash(cwd: &str, path: &str) -> (result: String)
    ensures
        result@ == slash_path(cwd@, path@),
{
    proof {
        reveal_strlit("/");
        assert("/"@ =~= seq!['/']);
    }
    if text::starts_with(path, "/") {
        assert(path@.subrange(0, 1)[0] == path@[0]);
        return path.to_owned();
    }
    proof {
        if path@.len() > 0 && path@[0] == '/' {
            assert("/"@ =~= path@.subrange(0, 1));
        }
    }
    if cwd.is_empty() {
        return path.to_owned();
    }
    let mut result = cwd.to_owned();
    if text::ends_with(cwd, "/") {
        assert(cwd@.subrange(cwd@.len() - 1, cwd@.len() as int)[0] == cwd@.last());
    } else {
        proof {
            if cwd@.last() == '/' {
                assert("/"@ =~= cwd@.subrange(cwd@.len() - 1, cwd@.len() as int));
            }
        }
        result.append("/");
    }
    result.append(path);
    result
}

/// Where a path leads from `cwd`, by what separates the parts of a path.
pub open spec fn resolved(separator: char, cwd: Seq<char>, path: Seq<char>) -> Seq<char> {
    if separator == '\\' {
        windows_path(cwd, path)
    } else {
        slash_path(cwd, path)
    }
}

/// Where a path leads from `cwd`.
pub fn resolve_path(platform: &Platform, cwd: &str, path: &str) -> (result: String)
    ensures
        result@ == resolved(platform.separator(), cwd@, path@),
        platform.separator() == '\\' && starts_at_drive(path@) ==> result@ == path@,
{
    if platform.separator == '\\' {
        join_on_windows(platform, cwd, path)
    } else {
        join_by_slash(cwd, path)
    }
}

/// What a call of a tool asks for.
#[derive(Debug)]
pub enum ToolPlan {
    /// Read the file at this path.
    Read(String),
    /// Write this content to the file at this path.
    Write(String, String),
    /// List the directory at this path.
    List(String),
    /// Run this command for at most this many seconds.
    Run(String, u64),
    /// Nothing that can be done; with the reason.
    Refuse(String),
}

/// What a [`ToolPlan`] says.
#[verifier::ext_equal]
pub enum PlanView {
    Read(Seq<char>),
    Write(Seq<char>, Seq<char>),
    List(Seq<char>),
    Run(Seq<char>, u64),
    Refuse(Seq<char>),
}

impl View for ToolPlan {
    type V = PlanView;

    open spec fn view(&self) -> PlanView {
        match *self {
            ToolPlan::Read(path) => PlanView::Read(path@),
            ToolPlan::Write(path, content) => PlanView::Write(path@, content@),
            ToolPlan::List(path) => PlanView::List(path@),
            ToolPlan::Run(command, seconds) => PlanView::Run(command@, seconds),
            ToolPlan::Refuse(reason) => PlanView::Refuse(reason@),
        }
    }
}

/// What a call of a tool asks for, in the directory `cwd`.
pub open spec fn planned(separator: char, cwd: Seq<char>, call: ToolUseView) -> PlanView {
    if call.name == "read_file"@ {
        match argument(call.input, "path"@) {
            Some(path) => PlanView::Read(resolved(separator, cwd, path)),
            None => PlanView::Refuse(missing_text("path"@)),
        }
    } else if call.name == "write_file"@ {
        match argument(call.input, "path"@) {
            Some(path) => match argument(call.input, "content"@) {
                Some(content) => PlanView::Write(resolved(separator, cwd, path), content),
                None => PlanView::Refuse(missing_text("content"@)),
            },
            None => PlanView::Refuse(missing_text("path"@)),
        }
    } else if call.name == "list_dir"@ {
        match argument(call.input, "path"@) {
            Some(path) => PlanView::List(resolved(separator, cwd, path)),
            None => PlanView::List(resolved(separator, cwd, "."@)),
        }
    } else if call.name == "run_command"@ {
        match argument(call.input, "command"@) {
            Some(command) => PlanView::Run(
                command,
                allowed_seconds(command, call.input.get_unsigned("timeout_seconds"@)),
            ),
            None => PlanView::Refuse(missing_text("command"@)),
        }
    } else {
        PlanView::Refuse("未知工具："@ + call.name)
    }
}

/// Says what a call of a tool asks for.
pub fn plan_tool(platform: &Platform, cwd: &str, tool_use: &ToolUse) -> (plan: ToolPlan)
    ensures
        plan@ == planned(platform.separator(), cwd@, tool_use@),
{
    let name = tool_use.name.as_str();
    let input = &tool_use.input;
    if text::same_text(name, "read_file") {
        match required_string(input, "path") {
            Ok(path) => ToolPlan::Read(resolve_path(platform, cwd, path)),
            Err(message) => ToolPlan::Refuse(message),
        }
    } else if text::same_text(name, "write_file") {
        match required_string(input, "path") {
            Ok(path) => match required_string(input, "content") {
                Ok(content) => ToolPlan::Write(
                    resolve_path(platform, cwd, path),
                    content.to_owned(),
                ),
                Err(message) => ToolPlan::Refuse(message),
            },
            Err(message) => ToolPlan::Refuse(message),
        }
    } else if text::same_text(name, "list_dir") {
        match required_string(input, "path") {
            Ok(path) => ToolPlan::List(resolve_path(platform, cwd, path)),
            Err(_) => ToolPlan::List(resolve_path(platform, cwd, ".")),
        }
    } else if text::same_text(name, "run_command") {
        match required_string(input, "command") {
            Ok(command) => {
                let seconds: u64 = effective_command_timeout_seconds(
                    command,
                    input.get_u64("timeout_seconds"),
                );
                ToolPlan::Run(command.to_owned(), seconds)
            },
            Err(message) => ToolPlan::Refuse(message),
        }
    } else {
        let mut message = "未知工具：".to_owned();
        message.append(name);
        ToolPlan::Refuse(message)
    }
}

// ---------------------------------------------------------------------------
// Timeouts
// ---------------------------------------------------------------------------

/// Whether a command, in lower case, calls `name`: as its first word, or behind another
/// command.
pub open spec fn calls(command: Seq<char>, name: Seq<char>) -> bool {
    let line = text::trimmed_start(command);
    let word = name + " "@;
    ||| line == name
    ||| word.is_prefix_of(line)
    ||| text::has_text(line, " "@ + word)
    ||| text::has_text(line, ";"@ + word)
    ||| text::has_text(line, "; "@ + word)
    ||| text::has_text(line, "&& "@ + word)
    ||| text::has_text(line, "|| "@ + word)
    ||| text::has_text(line, "| "@ + word)
}

/// Whether a command, in lower case, searches a whole tree with grep.
pub open spec fn greps_tree(command: Seq<char>) -> bool {
    ||| text::has_text(command, "grep -r"@)
    ||| text::has_text(command, "grep --recursive"@)
    ||| text::has_text(command, "grep --directories=recurse"@)
}

/// Whether a command is likely to run long.
pub open spec fn runs_long(command: Seq<char>) -> bool {
    let line = text::lowered(command);
    ||| greps_tree(line)
    ||| calls(line, "find"@)
    ||| calls(line, "rg"@)
    ||| calls(line, "npm"@)
    ||| calls(line, "pnpm"@)
    ||| calls(line, "yarn"@)
    ||| calls(line, "bun"@)
    ||| calls(line, "cargo"@)
    ||| text::has_text(line, "go test"@)
    ||| calls(line, "mvn"@)
    ||| calls(line, "gradle"@)
}

/// The seconds that a command may run: as asked for, from 1 to 600, a minute where nothing
/// is asked for, and at least a minute where it is likely to run long.
pub open spec fn allowed_seconds(command: Seq<char>, requested: Option<u64>) -> u64 {
    let seconds = match requested {
        Some(n) => if n < 1 {
            1u64
        } else if n > 600 {
            600u64
        } else {
            n
        },
        None => 60u64,
    };
    if seconds < 60 && runs_long(command) {
        60
    } else {
        seconds
    }
}

/// A command may always run, for ten minutes at most; one that is likely to run long has
/// at least a minute.
pub proof fn law_commands_have_time(command: Seq<char>, requested: Option<u64>)
    ensures
        1 <= allowed_seconds(command, requested) <= 600,
        runs_long(command) ==> allowed_seconds(command, requested) >= 60,
        requested matches Some(n) ==> (60 <= n <= 600 ==> allowed_seconds(command, requested) == n),
{
}

fn joined_pair(first: &str, second: &str) -> (result: String)
    ensures
        result@ == first@ + second@,
{
    let mut result = first.to_owned();
    result.append(second);
    result
}

/// Tests whether a command, in lower case, calls `name`.
pub fn contains_shell_command(command: &str, name: &str) -> (found: bool)
    ensures
        found == calls(command@, name@),
{
    let line = text::trim_start(command);
    let line = line.as_str();
    let word = joined_pair(name, " ");
    let word = word.as_str();
    text::same_text(line, name) || text::starts_with(line, word) || text::contains(
        line,
        joined_pair(" ", word).as_str(),
    ) || text::contains(line, joined_pair(";", word).as_str()) || text::contains(
        line,
        joined_pair("; ", word).as_str(),
    ) || text::contains(line, joined_pair("&& ", word).as_str()) || text::contains(
        line,
        joined_pair("|| ", word).as_str(),
    ) || text::contains(line, joined_pair("| ", word).as_str())
}

/// Tests whether a command, in lower case, searches a whole tree with grep.
pub fn is_recursive_grep_command(command: &str) -> (found: bool)
    ensures
        found == greps_tree(command@),
{
    text::contains(command, "grep -r") || text::contains(command, "grep --recursive")
        || text::contains(command, "grep --directories=recurse")
}

/// Tests whether a command is likely to run long.
pub fn should_use_long_command_timeout(command: &str) -> (long: bool)
    ensures
        long == runs_long(command@),
{
    let lowered = text::to_lower(command);
    let line = lowered.as_str();
    is_recursive_grep_command(line) || contains_shell_command(line, "find")
        || contains_shell_command(line, "rg") || contains_shell_command(line, "npm")
        || contains_shell_command(line, "pnpm") || contains_shell_command(line, "yarn")
        || contains_shell_command(line, "bun") || contains_shell_command(line, "cargo")
        || text::contains(line, "go test") || contains_shell_command(line, "mvn")
        || contains_shell_command(line, "gradle")
}

/// The seconds that a command may run.
pub fn effective_command_timeout_seconds(command: &str, requested: Option<u64>) -> (seconds: u64)
    ensures
        seconds == allowed_seconds(command@, requested),
{
    let seconds: u64 = match requested {
        Some(n) => if n < 1 {
            1
        } else if n > 600 {
            600
        } else {
            n
        },
        None => 60,
    };
    if seconds < 60 && should_use_long_command_timeout(command) {
        60
    } else {
        seconds
    }
}

/// What is answered when a command ran out of time.
pub open spec fn timeout_text(command: Seq<char>, seconds: u64) -> Seq<char> {
    if greps_tree(text::lowered(command)) {
        "搜索命令超时：命令超过 "@ + text::numeral(seconds as nat)
            + " 秒未完成。请改用 rg，并排除 .git、node_modules、target、dist、build 等大目录"@
    } else {
        "命令超过 "@ + text::numeral(seconds as nat) + " 秒未完成"@
    }
}

/// What is answered when a command ran out of time.
pub fn command_timeout_message(command: &str, timeout_seconds: u64) -> (message: String)
    ensures
        message@ == timeout_text(command@, timeout_seconds),
{
    let number = text::decimal(timeout_seconds);
    if is_recursive_grep_command(text::to_lower(command).as_str()) {
        let mut message = "搜索命令超时：命令超过 ".to_owned();
        message.append(number.as_str());
        message.append(
            " 秒未完成。请改用 rg，并排除 .git、node_modules、target、dist、build 等大目录",
        );
        message
    } else {
        let mut message = "命令超过 ".to_owned();
        message.append(number.as_str());
        message.append(" 秒未完成");
        message
    }
}

// ---------------------------------------------------------------------------
// Answers
// ---------------------------------------------------------------------------

/// What is answered when a file was read.
pub fn read_answer(content: &str) -> (answer: String)
    ensures
        answer@ == text::cut(content@, MAX_FILE_CHARS as nat, claude::TRUNCATED@),
{
    claude::truncate(content, MAX_FILE_CHARS)
}

/// What is answered when a file was written.
pub fn write_answer(path: &str) -> (answer: String)
    ensures
        answer@ == "写入完成："@ + path@,
{
    joined_pair("写入完成：", path)
}

/// What is known of a path that is to be listed.
#[derive(Debug)]
pub enum PathState {
    Directory,
    NoDirectory,
    Missing,
    /// Nothing; with the message of the error.
    Unknown(String),
}

/// Why a path cannot be listed, if it cannot.
pub open spec fn list_refusal(cwd: Seq<char>, path: Seq<char>, state: PathState) -> Option<Seq<char>> {
    match state {
        PathState::Directory => None,
        PathState::NoDirectory => Some("不是目录："@ + path + "。请传入目录路径"@),
        PathState::Missing => Some(
            "路径不存在："@ + path + "。请使用 workdir 相对路径，当前 workdir 是 "@ + cwd,
        ),
        PathState::Unknown(message) => Some(message@),
    }
}

/// Checks a path that is to be listed.
pub fn ensure_list_dir_path(cwd: &str, path: &str, state: PathState) -> (result: Result<(), String>)
    ensures
        match result {
            Ok(()) => list_refusal(cwd@, path@, state) is None,
            Err(message) => list_refusal(cwd@, path@, state) == Some(message@),
        },
{
    match state {
        PathState::Directory => Ok(()),
        PathState::NoDirectory => {
            let mut message = "不是目录：".to_owned();
            message.append(path);
            message.append("。请传入目录路径");
            Err(message)
        },
        PathState::Missing => {
            let mut message = "路径不存在：".to_owned();
            message.append(path);
            message.append("。请使用 workdir 相对路径，当前 workdir 是 ");
            message.append(cwd);
            Err(message)
        },
        PathState::Unknown(message) => Err(message),
    }
}

/// How an entry of a directory is listed: a directory with a slash behind its name.
pub open spec fn entry_line(entry: (String, bool)) -> Seq<char> {
    if entry.1 {
        entry.0@ + "/"@
    } else {
        entry.0@
    }
}

/// The lines of a list of entries, before they are sorted: where there are too many, the
/// first ones and a mark.
pub open spec fn entry_lines(entries: Seq<(String, bool)>) -> Seq<Seq<char>> {
    if entries.len() >= MAX_LIST_ENTRIES {
        Seq::new(MAX_LIST_ENTRIES as nat, |i: int| entry_line(entries[i])).push("..."@)
    } else {
        Seq::new(entries.len(), |i: int| entry_line(entries[i]))
    }
}

/// Lines in a given order.
pub open spec fn arranged(lines: Seq<Seq<char>>, order: Seq<usize>) -> Seq<Seq<char>> {
    Seq::new(order.len(), |i: int| lines[order[i] as int])
}

/// Whether `order` sorts lines.
pub open spec fn sorts(lines: Seq<String>, order: Seq<usize>) -> bool {
    order::is_stable_order(lines, false, order)
}

/// What is answered when a directory was listed.
pub fn list_answer(entries: &Vec<(String, bool)>) -> (answer: String)
    ensures
        exists|lines: Seq<String>, order: Seq<usize>| #[trigger]
            sorts(lines, order) && text::texts(lines) == entry_lines(entries@) && answer@
                == text::joined(arranged(entry_lines(entries@), order), "\n"@),
{
    let mut lines: Vec<String> = Vec::new();
    let mut i: usize = 0;
    while i < entries.len() && i < MAX_LIST_ENTRIES
        invariant
            i <= entries@.len(),
            i <= MAX_LIST_ENTRIES,
            text::texts(lines@) == Seq::new(i as nat, |j: int| entry_line(entries@[j])),
        decreases entries@.len() - i,
    {
        let mut line = entries[i].0.clone();
        if entries[i].1 {
            line.append("/");
        }
        let ghost before = lines@;
        lines.push(line);
        i += 1;
        assert(text::texts(lines@) =~= text::texts(before).push(entry_line(entries@[i - 1])));
        assert(text::texts(lines@) =~= Seq::new(i as nat, |j: int| entry_line(entries@[j])));
    }
    if i >= MAX_LIST_ENTRIES {
        let ghost before = lines@;
        lines.push("...".to_owned());
        assert(text::texts(lines@) =~= text::texts(before).push("..."@));
    }
    assert(text::texts(lines@) =~= entry_lines(entries@));
    let order = order::stable_order(&lines, false);
    let mut sorted: Vec<String> = Vec::new();
    let mut k: usize = 0;
    while k < order.len()
        invariant
            k <= order@.len(),
            sorts(lines@, order@),
            text::texts(lines@) == entry_lines(entries@),
            text::texts(sorted@) == arranged(entry_lines(entries@), order@).take(k as int),
        decreases order@.len() - k,
    {
        let at: usize = order[k];
        let line = lines[at].clone();
        let ghost before = sorted@;
        sorted.push(line);
        assert(text::texts(lines@)[at as int] == line@);
        assert(text::texts(sorted@) =~= text::texts(before).push(line@));
        assert(arranged(entry_lines(entries@), order@).take(k + 1) =~= arranged(
            entry_lines(entries@),
            order@,
        ).take(k as int).push(line@));
        k += 1;
    }
    assert(arranged(entry_lines(entries@), order@).take(k as int) =~= arranged(
        entry_lines(entries@),
        order@,
    ));
    assert(sorts(lines@, order@));
    text::join(&sorted, "\n")
}

/// How the exit code of a command is shown.
pub open spec fn code_text(code: Option<i32>) -> Seq<char> {
    match code {
        Some(n) => "Some("@ + text::signed_numeral(n as int) + ")"@,
        None => "None"@,
    }
}

/// What a command printed, as the model sees it.
pub open spec fn command_text(code: Option<i32>, stdout: Seq<char>, stderr: Seq<char>) -> Seq<char> {
    text::cut(
        "exit_code: "@ + code_text(code) + "\nstdout:\n"@ + stdout + "\nstderr:\n"@ + stderr,
        MAX_COMMAND_CHARS as nat,
        claude::TRUNCATED@,
    )
}

/// What is answered when a command has ended, whatever its exit code.
pub fn command_answer(code: Option<i32>, stdout: &[u8], stderr: &[u8]) -> (answer: String)
    ensures
        answer@ == command_text(code, text::lossy(stdout@), text::lossy(stderr@)),
{
    let mut answer = "exit_code: ".to_owned();
    match code {
        Some(n) => {
            answer.append("Some(");
            answer.append(text::signed_decimal(n as i64).as_str());
            answer.append(")");
        },
        None => {
            answer.append("None");
        },
    }
    assert(answer@ =~= "exit_code: "@ + code_text(code));
    answer.append("\nstdout:\n");
    answer.append(text::decode_lossy(stdout).as_str());
    answer.append("\nstderr:\n");
    answer.append(text::decode_lossy(stderr).as_str());
    claude::truncate(answer.as_str(), MAX_COMMAND_CHARS)
}

// ---------------------------------------------------------------------------
// Logs
// ---------------------------------------------------------------------------

/// Whether there is a tool of this name.
pub open spec fn is_tool(name: Seq<char>) -> bool {
    name == "read_file"@ || name == "write_file"@ || name == "list_dir"@ || name == "run_command"@
}

/// How serious it is that a tool failed: the call of an unknown tool is an error.
pub fn local_tool_failure_level(tool_name: &str) -> (level: LogLevel)
    ensures
        level == (if is_tool(tool_name@) {
            LogLevel::Warn
        } else {
            LogLevel::Error
        }),
{
    if text::same_text(tool_name, "read_file") || text::same_text(tool_name, "write_file")
        || text::same_text(tool_name, "list_dir") || text::same_text(tool_name, "run_command") {
        LogLevel::Warn
    } else {
        LogLevel::Error
    }
}

/// What is logged when a tool is called.
pub open spec fn call_log(call: ToolUseView, cwd: Seq<char>, task_id: Seq<char>) -> LogDraftView {
    LogDraftView {
        level: LogLevel::Info,
        source: "tool"@,
        request_id: None,
        task_id: Some(task_id),
        summary: "执行本地工具 "@ + call.name,
        detail: Some(
            JsonTree::Object(
                json::no_fields().insert("tool"@, JsonTree::Text(call.name)).insert(
                    "input"@,
                    call.input,
                ).insert("workdir"@, JsonTree::Text(cwd)),
            ),
        ),
    }
}

/// What to log when a tool is called.
pub fn tool_call_log(tool_use: &ToolUse, cwd: &str, task_id: &str) -> (draft: LogDraft)
    ensures
        draft@ == call_log(tool_use@, cwd@, task_id@),
{
    let detail = JsonObject::new().with("tool", Json::text(tool_use.name.as_str())).with(
        "input",
        tool_use.input.clone(),
    ).with("workdir", Json::text(cwd));
    let summary = joined_pair("执行本地工具 ", tool_use.name.as_str());
    LogDraft::new(
        LogLevel::Info,
        "tool",
        None,
        Some(task_id.to_owned()),
        summary.as_str(),
        Some(Json::Object(detail)),
    )
}

/// What is logged when a tool has answered or failed.
pub open spec fn outcome_log(
    call: ToolUseView,
    cwd: Seq<char>,
    task_id: Seq<char>,
    elapsed_ms: u64,
    outcome: Result<Seq<char>, Seq<char>>,
) -> LogDraftView {
    match outcome {
        Ok(output) => LogDraftView {
            level: LogLevel::Info,
            source: "tool"@,
            request_id: None,
            task_id: Some(task_id),
            summary: "本地工具 "@ + call.name + " 完成"@,
            detail: Some(
                JsonTree::Object(
                    json::no_fields().insert("tool"@, JsonTree::Text(call.name)).insert(
                        "elapsed_ms"@,
                        JsonTree::Integer(elapsed_ms as int),
                    ).insert("output_chars"@, JsonTree::Integer(output.len() as int)),
                ),
            ),
        },
        Err(error) => LogDraftView {
            level: if is_tool(call.name) {
                LogLevel::Warn
            } else {
                LogLevel::Error
            },
            source: "tool"@,
            request_id: None,
            task_id: Some(task_id),
            summary: "本地工具 "@ + call.name + " 失败："@ + error,
            detail: Some(
                JsonTree::Object(
                    json::no_fields().insert("tool"@, JsonTree::Text(call.name)).insert(
                        "workdir"@,
                        JsonTree::Text(cwd),
                    ).insert("input"@, call.input).insert(
                        "elapsed_ms"@,
                        JsonTree::Integer(elapsed_ms as int),
                    ).insert("error"@, JsonTree::Text(error)),
                ),
            ),
        },
    }
}

/// What an answer, or the reason of a failure, says.
pub open spec fn outcome_text(outcome: Result<String, String>) -> Result<Seq<char>, Seq<char>> {
    match outcome {
        Ok(output) => Ok(output@),
        Err(error) => Err(error@),
    }
}

/// What to log when a tool has answered or failed.
pub fn tool_outcome_log(
    tool_use: &ToolUse,
    cwd: &str,
    task_id: &str,
    elapsed_ms: u64,
    outcome: &Result<String, String>,
) -> (draft: LogDraft)
    ensures
        draft@ == outcome_log(tool_use@, cwd@, task_id@, elapsed_ms, outcome_text(*outcome)),
{
    let name = tool_use.name.as_str();
    let mut summary = joined_pair("本地工具 ", name);
    match outcome {
        Ok(output) => {
            summary.append(" 完成");
            let detail = JsonObject::new().with("tool", Json::text(name)).with(
                "elapsed_ms",
                Json::Unsigned(elapsed_ms),
            ).with("output_chars", Json::Unsigned(output.as_str().unicode_len() as u64));
            LogDraft::new(
                LogLevel::Info,
                "tool",
                None,
                Some(task_id.to_owned()),
                summary.as_str(),
                Some(Json::Object(detail)),
            )
        },
        Err(error) => {
            summary.append(" 失败：");
            summary.append(error.as_str());
            let detail = JsonObject::new().with("tool", Json::text(name)).with(
                "workdir",
                Json::text(cwd),
            ).with("input", tool_use.input.clone()).with(
                "elapsed_ms",
                Json::Unsigned(elapsed_ms),
            ).with("error", Json::text(error.as_str()));
            LogDraft::new(
                local_tool_failure_level(name),
                "tool",
                None,
                Some(task_id.to_owned()),
                summary.as_str(),
                Some(Json::Object(detail)),
            )
        },
    }
}

} // verus!
