//! What the tools are asked to do, and what the model is told of it.

use vstd::prelude::*;
use vstd::string::*;

use crate::claude;
use crate::json::JsonTree;
use crate::logs::LogLevel;
use crate::order;
use crate::stream::ToolUseView;
use crate::text;
use crate::tools;
use crate::tools::{PathState, PlanView};

verus! {

/// The names of the tools and of what is logged of them are different ones.
proof fn lemma_tool_words()
    ensures
        "read_file"@ != "write_file"@,
        "read_file"@ != "list_dir"@,
        "read_file"@ != "run_command"@,
        "read_file"@ != "path"@,
        "read_file"@ != "content"@,
        "read_file"@ != "command"@,
        "read_file"@ != "tool"@,
        "read_file"@ != "input"@,
        "read_file"@ != "workdir"@,
        "read_file"@ != "elapsed_ms"@,
        "read_file"@ != "output_chars"@,
        "read_file"@ != "error"@,
        "write_file"@ != "list_dir"@,
        "write_file"@ != "run_command"@,
        "write_file"@ != "path"@,
        "write_file"@ != "content"@,
        "write_file"@ != "command"@,
        "write_file"@ != "tool"@,
        "write_file"@ != "input"@,
        "write_file"@ != "workdir"@,
        "write_file"@ != "elapsed_ms"@,
        "write_file"@ != "output_chars"@,
        "write_file"@ != "error"@,
        "list_dir"@ != "run_command"@,
        "list_dir"@ != "path"@,
        "list_dir"@ != "content"@,
        "list_dir"@ != "command"@,
        "list_dir"@ != "tool"@,
        "list_dir"@ != "input"@,
        "list_dir"@ != "workdir"@,
        "list_dir"@ != "elapsed_ms"@,
        "list_dir"@ != "output_chars"@,
        "list_dir"@ != "error"@,
        "run_command"@ != "path"@,
        "run_command"@ != "content"@,
        "run_command"@ != "command"@,
        "run_command"@ != "tool"@,
        "run_command"@ != "input"@,
        "run_command"@ != "workdir"@,
        "run_command"@ != "elapsed_ms"@,
        "run_command"@ != "output_chars"@,
        "run_command"@ != "error"@,
        "path"@ != "content"@,
        "path"@ != "command"@,
        "path"@ != "tool"@,
        "path"@ != "input"@,
        "path"@ != "workdir"@,
        "path"@ != "elapsed_ms"@,
        "path"@ != "output_chars"@,
        "path"@ != "error"@,
        "content"@ != "command"@,
        "content"@ != "tool"@,
        "content"@ != "input"@,
        "content"@ != "workdir"@,
        "content"@ != "elapsed_ms"@,
        "content"@ != "output_chars"@,
        "content"@ != "error"@,
        "command"@ != "tool"@,
        "command"@ != "input"@,
        "command"@ != "workdir"@,
        "command"@ != "elapsed_ms"@,
        "command"@ != "output_chars"@,
        "command"@ != "error"@,
        "tool"@ != "input"@,
        "tool"@ != "workdir"@,
        "tool"@ != "elapsed_ms"@,
        "tool"@ != "output_chars"@,
        "tool"@ != "error"@,
        "input"@ != "workdir"@,
        "input"@ != "elapsed_ms"@,
        "input"@ != "output_chars"@,
        "input"@ != "error"@,
        "workdir"@ != "elapsed_ms"@,
        "workdir"@ != "output_chars"@,
        "workdir"@ != "error"@,
        "elapsed_ms"@ != "output_chars"@,
        "elapsed_ms"@ != "error"@,
        "output_chars"@ != "error"@,
{
    reveal_strlit("read_file");
    reveal_strlit("write_file");
    reveal_strlit("list_dir");
    reveal_strlit("run_command");
    reveal_strlit("path");
    reveal_strlit("content");
    reveal_strlit("command");
    reveal_strlit("tool");
    reveal_strlit("input");
    reveal_strlit("workdir");
    reveal_strlit("elapsed_ms");
    reveal_strlit("output_chars");
    reveal_strlit("error");
    assert("read_file"@.len() == 9);
    assert("write_file"@.len() == 10);
    assert("list_dir"@.len() == 8);
    assert("run_command"@.len() == 11);
    assert("path"@.len() == 4);
    assert("content"@.len() == 7);
    assert("command"@.len() == 7);
    assert("tool"@.len() == 4);
    assert("input"@.len() == 5);
    assert("workdir"@.len() == 7);
    assert("elapsed_ms"@.len() == 10);
    assert("output_chars"@.len() == 12);
    assert("error"@.len() == 5);
    assert("write_file"@[0] == 'w' && "elapsed_ms"@[0] == 'e');
    assert("path"@[0] == 'p' && "tool"@[0] == 't');
    assert("content"@[2] == 'n' && "command"@[2] == 'm');
    assert("content"@[0] == 'c' && "workdir"@[0] == 'w');
    assert("command"@[0] == 'c' && "workdir"@[0] == 'w');
    assert("input"@[0] == 'i' && "error"@[0] == 'e');
}

// ---------------------------------------------------------------------------
// Paths
// ---------------------------------------------------------------------------

/// Whether `whole` is what `path` means in the directory `cwd`, where slashes separate the parts
/// of a path: a path that starts with a slash means itself, and any other the directory, a slash
/// and the path, with no second slash behind a directory that ends with one.
pub open spec fn is_path_in(whole: Seq<char>, cwd: Seq<char>, path: Seq<char>) -> bool {
    if path.len() > 0 && path[0] == '/' {
        whole == path
    } else if cwd.len() == 0 {
        whole == path
    } else {
        &&& cwd.is_prefix_of(whole)
        &&& path.is_suffix_of(whole)
        &&& cwd.last() == '/' ==> whole.len() == cwd.len() + path.len()
        &&& cwd.last() != '/' ==> whole.len() == cwd.len() + 1 + path.len()
            && whole[cwd.len() as int] == '/'
    }
}

/// A path that does not start with a slash is taken from the working directory, and one that
/// does is taken as it is.
pub proof fn law_paths_are_in_the_directory(cwd: Seq<char>, path: Seq<char>)
    ensures
        is_path_in(tools::resolved('/', cwd, path), cwd, path),
        cwd.len() > 0 && cwd.last() != '/' && (path.len() == 0 || path[0] != '/')
            ==> tools::resolved('/', cwd, path) == cwd + seq!['/'] + path,
{
    let whole = tools::resolved('/', cwd, path);
    if (path.len() == 0 || path[0] != '/') && cwd.len() > 0 {
        assert(cwd =~= whole.subrange(0, cwd.len() as int));
        assert(path =~= whole.subrange(whole.len() - path.len(), whole.len() as int));
    }
}

/// Each plan to read, to write or to list names the path that was given, taken from the working
/// directory, whatever is done there.
pub proof fn law_plans_name_the_path(cwd: Seq<char>, call: ToolUseView, path: Seq<char>)
    requires
        call.input.get("path"@) == Some(JsonTree::Text(path)),
        path.len() > 0,
    ensures
        call.name == "read_file"@ ==> (tools::planned('/', cwd, call) matches PlanView::Read(whole)
            && is_path_in(whole, cwd, path)),
        call.name == "list_dir"@ ==> (tools::planned('/', cwd, call) matches PlanView::List(whole)
            && is_path_in(whole, cwd, path)),
        call.name == "write_file"@ ==> (call.input.get("content"@) matches Some(
            JsonTree::Text(content),
        ) ==> (content.len() > 0 ==> (tools::planned('/', cwd, call) matches PlanView::Write(
            whole,
            written,
        ) && written == content && is_path_in(whole, cwd, path)))),
{
    lemma_tool_words();
    law_paths_are_in_the_directory(cwd, path);
}

/// Two calls with one path mean one place: what is written there is read there.
pub proof fn law_plans_agree_on_the_path(
    separator: char,
    cwd: Seq<char>,
    reads: ToolUseView,
    writes: ToolUseView,
    lists: ToolUseView,
)
    requires
        reads.name == "read_file"@,
        writes.name == "write_file"@,
        lists.name == "list_dir"@,
        reads.input.get("path"@) == writes.input.get("path"@),
        reads.input.get("path"@) == lists.input.get("path"@),
    ensures
        tools::planned(separator, cwd, reads) matches PlanView::Read(at) ==> tools::planned(
            separator,
            cwd,
            lists,
        ) == PlanView::List(at),
        tools::planned(separator, cwd, writes) matches PlanView::Write(at, _) ==> tools::planned(
            separator,
            cwd,
            reads,
        ) == PlanView::Read(at),
{
    lemma_tool_words();
}

/// Where a backslash separates the parts of a path, each plan names the path as it is joined to
/// the working directory there.
pub proof fn law_plans_join_on_windows(cwd: Seq<char>, call: ToolUseView, path: Seq<char>)
    requires
        call.input.get("path"@) == Some(JsonTree::Text(path)),
        path.len() > 0,
    ensures
        ({
            let whole = tools::windows_path(cwd, path);
            &&& call.name == "read_file"@ ==> tools::planned('\\', cwd, call) == PlanView::Read(whole)
            &&& call.name == "list_dir"@ ==> tools::planned('\\', cwd, call) == PlanView::List(whole)
            &&& call.name == "write_file"@ ==> (call.input.get("content"@) matches Some(
                JsonTree::Text(content),
            ) ==> (content.len() > 0 ==> tools::planned('\\', cwd, call) == PlanView::Write(
                whole,
                content,
            )))
        }),
{
    lemma_tool_words();
}

/// A directory is listed where no path is given: the working directory. What else is needed and
/// missing, empty or no text is asked for by its name, and nothing is done.
pub proof fn law_missing_arguments_are_asked_for(
    separator: char,
    cwd: Seq<char>,
    call: ToolUseView,
)
    ensures
        ({
            let plan = tools::planned(separator, cwd, call);
            let lacks = |key: Seq<char>|
                !(call.input.get(key) matches Some(JsonTree::Text(said)) && said.len() > 0);
            &&& call.name == "read_file"@ && lacks("path"@) ==> plan == PlanView::Refuse(
                "缺少参数："@ + "path"@,
            )
            &&& call.name == "write_file"@ && lacks("path"@) ==> plan == PlanView::Refuse(
                "缺少参数："@ + "path"@,
            )
            &&& call.name == "write_file"@ && !lacks("path"@) && lacks("content"@) ==> plan
                == PlanView::Refuse("缺少参数："@ + "content"@)
            &&& call.name == "run_command"@ && lacks("command"@) ==> plan == PlanView::Refuse(
                "缺少参数："@ + "command"@,
            )
            &&& call.name == "list_dir"@ && lacks("path"@) ==> plan == PlanView::List(
                tools::resolved(separator, cwd, "."@),
            )
            &&& plan is Read <==> call.name == "read_file"@ && !lacks("path"@)
            &&& plan is Write <==> call.name == "write_file"@ && !lacks("path"@) && !lacks(
                "content"@,
            )
            &&& plan is List <==> call.name == "list_dir"@
            &&& plan is Run <==> call.name == "run_command"@ && !lacks("command"@)
            &&& call.name != "read_file"@ && call.name != "write_file"@ && call.name
                != "list_dir"@ && call.name != "run_command"@ ==> plan == PlanView::Refuse(
                "未知工具："@ + call.name,
            )
        }),
{
    lemma_tool_words();
}

/// A command is run as it was given, for a time that goes by what was asked for.
pub proof fn law_commands_are_run_as_given(
    separator: char,
    cwd: Seq<char>,
    call: ToolUseView,
    command: Seq<char>,
)
    requires
        call.name == "run_command"@,
        call.input.get("command"@) == Some(JsonTree::Text(command)),
        command.len() > 0,
    ensures
        tools::planned(separator, cwd, call) matches PlanView::Run(run, seconds) && run == command
            && (call.input.get("timeout_seconds"@) matches Some(JsonTree::Integer(n)) ==> (60 <= n
            <= 600 ==> seconds == n)) && (call.input.get("timeout_seconds"@) is None ==> seconds
            == 60),
{
    lemma_tool_words();
}

// ---------------------------------------------------------------------------
// Time
// ---------------------------------------------------------------------------

/// A command has the time that is asked for, between a second and ten minutes, and a minute
/// where nothing is asked for. Only one that is likely to run long may have more: a minute.
pub proof fn law_commands_have_the_time_asked_for(command: Seq<char>, requested: Option<u64>)
    ensures
        ({
            let seconds = tools::allowed_seconds(command, requested);
            &&& requested is None ==> seconds == 60
            &&& requested matches Some(n) ==> (n > 600 ==> seconds == 600)
            &&& requested matches Some(n) ==> (60 <= n <= 600 ==> seconds == n)
            &&& requested matches Some(n) ==> (n < 60 ==> seconds == 60 || seconds == n || (n == 0
                && seconds == 1))
            &&& tools::runs_long(command) ==> seconds >= 60
            &&& !tools::runs_long(command) ==> (requested matches Some(n) ==> (1 <= n < 60
                ==> seconds == n))
            &&& !tools::runs_long(command) ==> (requested matches Some(n) ==> (n == 0 ==> seconds
                == 1))
        }),
{
}

proof fn lemma_trimmed_start(text: Seq<char>) -> (k: int)
    ensures
        0 <= k <= text.len(),
        text::trimmed_start(text) == text.skip(k),
    decreases text.len(),
{
    if text.len() > 0 && text::is_white(text[0]) {
        let k = lemma_trimmed_start(text.skip(1));
        assert(text.skip(1).skip(k) =~= text.skip(k + 1));
        k + 1
    } else {
        assert(text.skip(0) =~= text);
        0
    }
}

proof fn lemma_inner(text: Seq<char>, whole: Seq<char>, part: Seq<char>, at: int)
    requires
        text::has_text(text, whole),
        text::stands_at(whole, part, at),
    ensures
        text::has_text(text, part),
{
    let i = choose|i: int| text::stands_at(text, whole, i);
    assert(text.subrange(i + at, i + at + part.len()) =~= whole.subrange(at, at + part.len()));
    assert(text::stands_at(text, part, i + at));
}

proof fn lemma_word_behind(line: Seq<char>, before: Seq<char>, name: Seq<char>)
    requires
        text::has_text(line, before + (name + " "@)),
    ensures
        text::has_text(line, name),
{
    let whole = before + (name + " "@);
    let at = before.len() as int;
    assert(whole.subrange(at, at + name.len()) =~= name);
    assert(text::stands_at(whole, name, at));
    lemma_inner(line, whole, name, at);
}

proof fn lemma_line_names(line: Seq<char>, name: Seq<char>)
    requires
        ({
            let word = name + " "@;
            ||| line == name
            ||| word.is_prefix_of(line)
            ||| text::has_text(line, " "@ + word)
            ||| text::has_text(line, ";"@ + word)
            ||| text::has_text(line, "; "@ + word)
            ||| text::has_text(line, "&& "@ + word)
            ||| text::has_text(line, "|| "@ + word)
            ||| text::has_text(line, "| "@ + word)
        }),
    ensures
        text::has_text(line, name),
{
    let word = name + " "@;
    if line == name {
        assert(line.subrange(0, name.len() as int) =~= name);
        assert(text::stands_at(line, name, 0));
    } else if word.is_prefix_of(line) {
        assert(line.subrange(0, name.len() as int) =~= word.subrange(0, name.len() as int));
        assert(word.subrange(0, name.len() as int) =~= name);
        assert(text::stands_at(line, name, 0));
    } else if text::has_text(line, " "@ + word) {
        lemma_word_behind(line, " "@, name);
    } else if text::has_text(line, ";"@ + word) {
        lemma_word_behind(line, ";"@, name);
    } else if text::has_text(line, "; "@ + word) {
        lemma_word_behind(line, "; "@, name);
    } else if text::has_text(line, "&& "@ + word) {
        lemma_word_behind(line, "&& "@, name);
    } else if text::has_text(line, "|| "@ + word) {
        lemma_word_behind(line, "|| "@, name);
    } else {
        lemma_word_behind(line, "| "@, name);
    }
}

proof fn lemma_in_rest(text: Seq<char>, k: int, name: Seq<char>)
    requires
        0 <= k <= text.len(),
        text::has_text(text.skip(k), name),
    ensures
        text::has_text(text, name),
{
    let rest = text.skip(k);
    let i = choose|i: int| text::stands_at(rest, name, i);
    assert(text.subrange(k + i, k + i + name.len()) =~= rest.subrange(i, i + name.len()));
    assert(text::stands_at(text, name, k + i));
}

proof fn lemma_calls_name(command: Seq<char>, name: Seq<char>)
    ensures
        tools::calls(command, name) ==> text::has_text(command, name),
{
    if tools::calls(command, name) {
        let line = text::trimmed_start(command);
        let k = lemma_trimmed_start(command);
        lemma_line_names(line, name);
        lemma_in_rest(command, k, name);
    }
}

/// A command in which none of the long-running programs is named, in any case of letters, is not
/// taken for one that runs long.
pub proof fn law_other_commands_are_short(command: Seq<char>)
    requires
        !text::has_text(text::lowered(command), "grep"@),
        !text::has_text(text::lowered(command), "find"@),
        !text::has_text(text::lowered(command), "rg"@),
        !text::has_text(text::lowered(command), "npm"@),
        !text::has_text(text::lowered(command), "pnpm"@),
        !text::has_text(text::lowered(command), "yarn"@),
        !text::has_text(text::lowered(command), "bun"@),
        !text::has_text(text::lowered(command), "cargo"@),
        !text::has_text(text::lowered(command), "mvn"@),
        !text::has_text(text::lowered(command), "gradle"@),
        !text::has_text(text::lowered(command), "go test"@),
    ensures
        !tools::runs_long(command),
{
    let line = text::lowered(command);
    lemma_calls_name(line, "find"@);
    lemma_calls_name(line, "rg"@);
    lemma_calls_name(line, "npm"@);
    lemma_calls_name(line, "pnpm"@);
    lemma_calls_name(line, "yarn"@);
    lemma_calls_name(line, "bun"@);
    lemma_calls_name(line, "cargo"@);
    lemma_calls_name(line, "mvn"@);
    lemma_calls_name(line, "gradle"@);
    reveal_strlit("grep");
    reveal_strlit("grep -r");
    reveal_strlit("grep --recursive");
    reveal_strlit("grep --directories=recurse");
    assert("grep -r"@.subrange(0, 4) =~= "grep"@);
    assert("grep --recursive"@.subrange(0, 4) =~= "grep"@);
    assert("grep --directories=recurse"@.subrange(0, 4) =~= "grep"@);
    assert(text::stands_at("grep -r"@, "grep"@, 0));
    assert(text::stands_at("grep --recursive"@, "grep"@, 0));
    assert(text::stands_at("grep --directories=recurse"@, "grep"@, 0));
    if text::has_text(line, "grep -r"@) {
        lemma_inner(line, "grep -r"@, "grep"@, 0);
    }
    if text::has_text(line, "grep --recursive"@) {
        lemma_inner(line, "grep --recursive"@, "grep"@, 0);
    }
    if text::has_text(line, "grep --directories=recurse"@) {
        lemma_inner(line, "grep --directories=recurse"@, "grep"@, 0);
    }
}

/// Whether a command calls one of the long-running programs at its start, in any case of
/// letters, or behind another command.
pub open spec fn starts_with(command: Seq<char>, name: Seq<char>) -> bool {
    ||| (name + " "@).is_prefix_of(text::trimmed_start(text::lowered(command)))
    ||| text::trimmed_start(text::lowered(command)) == name
    ||| text::has_text(text::trimmed_start(text::lowered(command)), " "@ + (name + " "@))
    ||| text::has_text(text::trimmed_start(text::lowered(command)), ";"@ + (name + " "@))
}

/// A command that calls one of the long-running programs is taken for one that runs long.
pub proof fn law_long_commands_are_known(command: Seq<char>)
    ensures
        starts_with(command, "find"@) ==> tools::runs_long(command),
        starts_with(command, "rg"@) ==> tools::runs_long(command),
        starts_with(command, "npm"@) ==> tools::runs_long(command),
        starts_with(command, "pnpm"@) ==> tools::runs_long(command),
        starts_with(command, "yarn"@) ==> tools::runs_long(command),
        starts_with(command, "bun"@) ==> tools::runs_long(command),
        starts_with(command, "cargo"@) ==> tools::runs_long(command),
        starts_with(command, "mvn"@) ==> tools::runs_long(command),
        starts_with(command, "gradle"@) ==> tools::runs_long(command),
        text::has_text(text::lowered(command), "grep -r"@) ==> tools::runs_long(command),
        text::has_text(text::lowered(command), "grep --recursive"@) ==> tools::runs_long(command),
        text::has_text(text::lowered(command), "grep --directories=recurse"@) ==> tools::runs_long(
            command,
        ),
        text::has_text(text::lowered(command), "go test"@) ==> tools::runs_long(command),
{
}

/// A command that took too long is said to have, with the time that it had; one that searches a
/// tree with grep is told of a better way.
pub proof fn law_timeouts_say_how_long(command: Seq<char>, seconds: u64)
    ensures
        ({
            let said = tools::timeout_text(command, seconds);
            let time = "命令超过 "@ + text::numeral(seconds as nat) + " 秒未完成"@;
            let greps = text::has_text(text::lowered(command), "grep -r"@) || text::has_text(
                text::lowered(command),
                "grep --recursive"@,
            ) || text::has_text(text::lowered(command), "grep --directories=recurse"@);
            &&& !greps ==> said == time
            &&& greps ==> said == "搜索命令超时：命令超过 "@ + text::numeral(seconds as nat)
                + " 秒未完成。请改用 rg，并排除 .git、node_modules、target、dist、build 等大目录"@
        }),
{
}

// ---------------------------------------------------------------------------
// Answers
// ---------------------------------------------------------------------------

/// A path is listed just where it is a directory; else the reason names the path, and where
/// nothing is there the working directory.
pub proof fn law_only_directories_are_listed(cwd: Seq<char>, path: Seq<char>, state: PathState)
    ensures
        ({
            let refusal = tools::list_refusal(cwd, path, state);
            &&& refusal is None <==> state is Directory
            &&& state is NoDirectory ==> refusal == Some("不是目录："@ + path + "。请传入目录路径"@)
            &&& state is Missing ==> refusal == Some(
                "路径不存在："@ + path + "。请使用 workdir 相对路径，当前 workdir 是 "@ + cwd,
            )
            &&& state matches PathState::Unknown(message) ==> refusal == Some(message@)
        }),
{
}

/// A list names each of the first 400 entries, a directory with a slash behind its name, and
/// says with three dots where it stops.
pub proof fn law_entries_are_listed(all: Seq<(String, bool)>, i: int)
    requires
        0 <= i < all.len(),
        i < 400,
    ensures
        ({
            let lines = tools::entry_lines(all);
            &&& all.len() < 400 ==> lines.len() == all.len()
            &&& all.len() >= 400 ==> lines.len() == 401 && lines[400] == "..."@
            &&& all[i].1 ==> lines[i] == all[i].0@ + "/"@
            &&& !all[i].1 ==> lines[i] == all[i].0@
        }),
{
}

/// The lines of a list are in the order of their texts, each of them once.
pub proof fn law_lists_are_sorted(lines: Seq<String>, order: Seq<usize>, i: int)
    requires
        tools::sorts(lines, order),
        0 <= i < lines.len(),
    ensures
        ({
            let shown = tools::arranged(text::texts(lines), order);
            &&& shown.len() == lines.len()
            &&& shown.contains(lines[i]@)
            &&& forall|a: int, b: int|
                0 <= a < b < shown.len() ==> !order::text_less(
                    #[trigger] shown[b],
                    #[trigger] shown[a],
                )
        }),
{
    let shown = tools::arranged(text::texts(lines), order);
    let n = lines.len();
    order::lemma_arrangement_covers(order, n, i);
    let k = choose|k: int| 0 <= k < n && order[k] == i;
    assert(shown[k] == lines[i]@);
    assert forall|a: int, b: int| 0 <= a < b < shown.len() implies !order::text_less(
        #[trigger] shown[b],
        #[trigger] shown[a],
    ) by {
        assert(order::comes_before(lines, false, order[a] as int, order[b] as int));
        assert(order[a] < n && order[b] < n);
        let x = shown[a];
        let y = shown[b];
        if order::text_less(x, y) && order::text_less(y, x) {
            order::lemma_text_transitive(x, y, x);
            order::lemma_text_total(x, x);
        }
    }
}

/// What is said of a command that has ended is its exit code, what it wrote and the errors that
/// it wrote, in this order; the first 120,000 characters of it where it is longer.
pub proof fn law_commands_tell_what_they_wrote(
    code: Option<i32>,
    stdout: Seq<char>,
    stderr: Seq<char>,
)
    ensures
        ({
            let said = tools::command_text(code, stdout, stderr);
            let code_said = match code {
                Some(n) => "Some("@ + text::signed_numeral(n as int) + ")"@,
                None => "None"@,
            };
            let all = "exit_code: "@ + code_said + "\nstdout:\n"@ + stdout + "\nstderr:\n"@
                + stderr;
            &&& all.len() <= 120_000 ==> said == all
            &&& all.len() > 120_000 ==> said == all.take(120_000) + "\n...[truncated]"@
        }),
{
}

/// What is logged of a call of a tool names the tool and the task, what was handed over and
/// where, and when it is done how long it took and what came of it.
pub proof fn law_calls_are_logged(
    call: ToolUseView,
    cwd: Seq<char>,
    task_id: Seq<char>,
    elapsed_ms: u64,
    outcome: Result<Seq<char>, Seq<char>>,
)
    ensures
        ({
            let before = tools::call_log(call, cwd, task_id);
            let after = tools::outcome_log(call, cwd, task_id, elapsed_ms, outcome);
            &&& before.level == LogLevel::Info
            &&& before.task_id == Some(task_id)
            &&& before.request_id is None
            &&& before.source == "tool"@
            &&& before.summary == "执行本地工具 "@ + call.name
            &&& before.detail matches Some(detail) && detail.get("tool"@) == Some(
                JsonTree::Text(call.name),
            ) && detail.get("input"@) == Some(call.input) && detail.get("workdir"@) == Some(
                JsonTree::Text(cwd),
            )
            &&& after.task_id == Some(task_id)
            &&& after.request_id is None
            &&& after.source == "tool"@
            &&& outcome matches Ok(output) ==> {
                &&& after.level == LogLevel::Info
                &&& after.summary == "本地工具 "@ + call.name + " 完成"@
                &&& after.detail matches Some(detail) && detail.get("tool"@) == Some(
                    JsonTree::Text(call.name),
                ) && detail.get("elapsed_ms"@) == Some(JsonTree::Integer(elapsed_ms as int))
                    && detail.get("output_chars"@) == Some(JsonTree::Integer(output.len() as int))
            }
            &&& outcome matches Err(error) ==> {
                &&& call.name == "read_file"@ || call.name == "write_file"@ || call.name
                    == "list_dir"@ || call.name == "run_command"@ ==> after.level == LogLevel::Warn
                &&& call.name != "read_file"@ && call.name != "write_file"@ && call.name
                    != "list_dir"@ && call.name != "run_command"@ ==> after.level
                    == LogLevel::Error
                &&& after.summary == "本地工具 "@ + call.name + " 失败："@ + error
                &&& after.detail matches Some(detail) && detail.get("tool"@) == Some(
                    JsonTree::Text(call.name),
                ) && detail.get("workdir"@) == Some(JsonTree::Text(cwd)) && detail.get("input"@)
                    == Some(call.input) && detail.get("elapsed_ms"@) == Some(
                    JsonTree::Integer(elapsed_ms as int),
                ) && detail.get("error"@) == Some(JsonTree::Text(error))
            }
        }),
{
    lemma_tool_words();
}

} // verus!
