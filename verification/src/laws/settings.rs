//! What the user sets, and how the server is run and shown.

use vstd::prelude::*;
use vstd::string::*;

use crate::agent_bridge::SdkRuntimeConfig;
use crate::agent_runtime;
use crate::commands;
use crate::config;
use crate::config::{AgentRuntime, ConfigError, ConfigFileView, PayloadView};
use crate::json::JsonTree;
use crate::laws::texts;
use crate::logs::LogLevel;
use crate::server;
use crate::server::{ControllerView, ServiceStatus, StatusView};
use crate::text;
use crate::throttle::{EmitGate, EmitPlan};
use crate::tray;
use crate::tray::{MenuAction, TrayEvent};

verus! {

/// The names of the items of the menu are different ones.
proof fn lemma_menu_words()
    ensures
        "show_window"@ != "hide_window"@,
        "show_window"@ != "start_service"@,
        "show_window"@ != "stop_service"@,
        "show_window"@ != "copy_mcp_url"@,
        "show_window"@ != "quit_app"@,
        "hide_window"@ != "start_service"@,
        "hide_window"@ != "stop_service"@,
        "hide_window"@ != "copy_mcp_url"@,
        "hide_window"@ != "quit_app"@,
        "start_service"@ != "stop_service"@,
        "start_service"@ != "copy_mcp_url"@,
        "start_service"@ != "quit_app"@,
        "stop_service"@ != "copy_mcp_url"@,
        "stop_service"@ != "quit_app"@,
        "copy_mcp_url"@ != "quit_app"@,
{
    reveal_strlit("show_window");
    reveal_strlit("hide_window");
    reveal_strlit("start_service");
    reveal_strlit("stop_service");
    reveal_strlit("copy_mcp_url");
    reveal_strlit("quit_app");
    assert("show_window"@.len() == 11);
    assert("hide_window"@.len() == 11);
    assert("start_service"@.len() == 13);
    assert("stop_service"@.len() == 12);
    assert("copy_mcp_url"@.len() == 12);
    assert("quit_app"@.len() == 8);
    assert("show_window"@[0] == 's' && "hide_window"@[0] == 'h');
    assert("stop_service"@[0] == 's' && "copy_mcp_url"@[0] == 'c');
}

/// The words of what is logged of the server are different ones.
proof fn lemma_server_words()
    ensures
        "host"@ != "port"@,
{
    reveal_strlit("host");
    reveal_strlit("port");
    assert("host"@.len() == 4);
    assert("port"@.len() == 4);
    assert("host"@[0] == 'h' && "port"@[0] == 'p');
}

// ---------------------------------------------------------------------------
// The configuration
// ---------------------------------------------------------------------------

/// At first the server asks the address of the vendor for the newest model, listens on port 8765,
/// and has no key.
pub proof fn law_settings_begin_with_defaults(name: Seq<char>)
    ensures
        ({
            let file = config::default_file(name);
            &&& file.api_url == "https://api.anthropic.com"@
            &&& file.model == text::lowered(name) + "-opus-4-7"@
            &&& file.port == 8765
            &&& file.agent_runtime == AgentRuntime::Sdk
            &&& file.api_key is None
            &&& config::in_force(None, name).api_url == file.api_url
            &&& config::in_force(None, name).port == 8765
            &&& config::in_force(None, name).api_key is None
        }),
{
}

/// What was saved is in force, but that a model which used to be the default gives way to the
/// one that is.
pub proof fn law_saved_settings_are_in_force(file: ConfigFileView, name: Seq<char>)
    ensures
        ({
            let now = config::in_force(Some(file), name);
            let is_old = file.model == text::lowered(name) + "-sonnet-4-7"@ || file.model
                == text::lowered(name) + "-sonnet-4-6"@;
            &&& now.api_url == file.api_url
            &&& now.port == file.port
            &&& now.agent_runtime == file.agent_runtime
            &&& now.api_key == file.api_key
            &&& !is_old ==> now.model == file.model
            &&& is_old ==> now.model == text::lowered(name) + "-opus-4-7"@
        }),
{
    let old = config::legacy_default_models(name);
    assert(old[0] == text::lowered(name) + "-sonnet-4-7"@);
    assert(old[1] == text::lowered(name) + "-sonnet-4-6"@);
    assert(old.len() == 2);
    if old.contains(file.model) {
        let k = choose|k: int| 0 <= k < old.len() && old[k] == file.model;
        assert(k == 0 || k == 1);
    }
}

/// A key is used without the white round it; a blank one is none.
pub proof fn law_blank_keys_are_none(key: Seq<char>)
    ensures
        config::usable_key(None) is None,
        config::usable_key(Some(key)) is None <==> texts::all_white(key),
        !texts::all_white(key) ==> config::usable_key(Some(key)) == Some(text::trimmed(key)),
{
    texts::law_trimming_takes_off_white(key);
}

/// What is shown of the settings is what is in force, and of the key only whether there is one.
pub proof fn law_settings_are_shown(file: ConfigFileView)
    ensures
        ({
            let shown = config::shown(file);
            &&& shown.api_url == file.api_url
            &&& shown.model == file.model
            &&& shown.port == file.port
            &&& shown.agent_runtime == file.agent_runtime
            &&& file.api_key is None ==> !shown.has_api_key
            &&& file.api_key matches Some(key) ==> shown.has_api_key == !texts::all_white(key)
        }),
{
    if file.api_key is Some {
        texts::law_trimming_takes_off_white(file.api_key->0);
    }
}

/// What is saved is what was given, without the white round it. The key that was kept stays where
/// none is given, and so does the runtime.
pub proof fn law_changes_are_saved(previous: ConfigFileView, payload: PayloadView)
    ensures
        ({
            let file = config::changed(previous, payload);
            &&& file.api_url == text::trimmed(payload.api_url)
            &&& file.model == text::trimmed(payload.model)
            &&& file.port == payload.port
            &&& payload.agent_runtime is None ==> file.agent_runtime == previous.agent_runtime
            &&& payload.agent_runtime matches Some(runtime) ==> file.agent_runtime == runtime
            &&& payload.api_key is None ==> file.api_key == previous.api_key
            &&& payload.api_key matches Some(key) ==> (texts::all_white(key) ==> file.api_key
                == previous.api_key)
            &&& payload.api_key matches Some(key) ==> (!texts::all_white(key) ==> file.api_key
                == Some(text::trimmed(key)))
        }),
{
    if payload.api_key is Some {
        texts::law_trimming_takes_off_white(payload.api_key->0);
    }
}

/// Settings are refused just where the port is below 1024, or the address or the model is blank,
/// or the address is none of the web.
pub proof fn law_wrong_settings_are_refused(payload: PayloadView)
    ensures
        ({
            let refusal = config::refusal(payload);
            let url = config::messages_url(text::trimmed(payload.api_url));
            &&& refusal is None <==> payload.port >= 1024 && !texts::all_white(payload.api_url)
                && url is Ok && !texts::all_white(payload.model)
            &&& payload.port < 1024 ==> refusal == Some(ConfigError::Port)
            &&& refusal == Some(ConfigError::Port) ==> payload.port < 1024
            &&& payload.port >= 1024 && texts::all_white(payload.api_url) ==> refusal == Some(
                ConfigError::EmptyUrl,
            )
            &&& refusal == Some(ConfigError::EmptyModel) <==> payload.port >= 1024
                && !texts::all_white(payload.api_url) && url is Ok && texts::all_white(
                payload.model,
            )
            &&& refusal != Some(ConfigError::MissingKey)
        }),
{
    texts::law_trimming_takes_off_white(payload.api_url);
    texts::law_trimming_takes_off_white(payload.model);
}

/// What the user is told of each error.
pub proof fn law_errors_are_told()
    ensures
        ConfigError::Port.text() == "端口号需要是 1024~65535 之间的数字哦"@,
        ConfigError::EmptyUrl.text() == "API 地址不能为空"@,
        ConfigError::UrlScheme.text() == "API 地址需要以 http:// 或 https:// 开头"@,
        ConfigError::EmptyModel.text() == "模型名称不能为空"@,
        ConfigError::MissingKey.text() == "还没有填写密钥哦"@,
{
}

/// Whether an address is one of the web that ends neither in a slash nor in white.
pub open spec fn is_plain_address(address: Seq<char>) -> bool {
    &&& "http://"@.is_prefix_of(address) || "https://"@.is_prefix_of(address)
    &&& !text::is_white(address.last())
    &&& address.last() != '/'
}

proof fn lemma_web(address: Seq<char>)
    requires
        "http://"@.is_prefix_of(address) || "https://"@.is_prefix_of(address),
    ensures
        address.len() >= 7,
        !text::is_white(address[0]),
        address[0] == 'h',
{
    reveal_strlit("http://");
    reveal_strlit("https://");
    if "http://"@.is_prefix_of(address) {
        assert(address.subrange(0, 7)[0] == "http://"@[0]);
    } else {
        assert(address.subrange(0, 8)[0] == "https://"@[0]);
    }
}

proof fn lemma_plain(address: Seq<char>)
    requires
        is_plain_address(address),
    ensures
        text::trimmed(address) == address,
        text::without_tail(address, "/"@) == address,
{
    lemma_web(address);
    reveal_strlit("/");
    if "/"@.is_suffix_of(address) {
        assert(address.subrange(address.len() - 1, address.len() as int)[0] == "/"@[0]);
    }
}

proof fn lemma_longer(address: Seq<char>, more: Seq<char>)
    requires
        "http://"@.is_prefix_of(address) || "https://"@.is_prefix_of(address),
    ensures
        "http://"@.is_prefix_of(address + more) || "https://"@.is_prefix_of(address + more),
{
    let whole = address + more;
    if "http://"@.is_prefix_of(address) {
        assert(whole.subrange(0, "http://"@.len() as int) =~= address.subrange(
            0,
            "http://"@.len() as int,
        ));
    } else {
        assert(whole.subrange(0, "https://"@.len() as int) =~= address.subrange(
            0,
            "https://"@.len() as int,
        ));
    }
}

/// Messages are sent to the path for messages at the address that was given, also where that path
/// was given with it, or a slash behind it; and the address is what is left without the path.
pub proof fn law_messages_go_to_the_address(address: Seq<char>)
    requires
        is_plain_address(address),
        !"/v1/messages"@.is_suffix_of(address),
    ensures
        config::messages_url(address) == Ok::<Seq<char>, ConfigError>(address + "/v1/messages"@),
        config::messages_url(address + "/"@) == Ok::<Seq<char>, ConfigError>(
            address + "/v1/messages"@,
        ),
        config::messages_url(address + "/v1/messages"@) == Ok::<Seq<char>, ConfigError>(
            address + "/v1/messages"@,
        ),
        config::api_base_url(address) == Ok::<Seq<char>, ConfigError>(address),
        config::api_base_url(address + "/"@) == Ok::<Seq<char>, ConfigError>(address),
        config::api_base_url(address + "/v1/messages"@) == Ok::<Seq<char>, ConfigError>(address),
{
    let path = "/v1/messages"@;
    let full = address + path;
    let open = address + "/"@;
    reveal_strlit("/v1/messages");
    reveal_strlit("/");
    lemma_web(address);
    lemma_plain(address);
    lemma_longer(address, path);
    assert(full.last() == 's');
    assert(is_plain_address(full));
    lemma_plain(full);
    assert(full.subrange(full.len() - path.len(), full.len() as int) =~= path);
    assert(path.is_suffix_of(full));
    assert(open[0] == address[0]);
    assert(open.last() == '/');
    assert(!text::is_white('/'));
    assert(text::trimmed(open) == open);
    texts::law_ends_are_taken_off(address, "/"@);
    assert(text::without_tail(open, "/"@) == address);
    texts::law_ends_are_taken_off(address, path);
    assert(text::without_tail(full, path) == address);
}

/// An address that is not of the web is refused, and so is one that is blank or made of slashes;
/// any other is not.
pub proof fn law_wrong_addresses_are_refused(input: Seq<char>)
    ensures
        ({
            let address = text::without_tail(text::trimmed(input), "/"@);
            &&& config::messages_url(input) == Err::<Seq<char>, ConfigError>(ConfigError::EmptyUrl)
                <==> address.len() == 0
            &&& config::messages_url(input) matches Ok(url) ==> "/v1/messages"@.is_suffix_of(url)
                && address.is_prefix_of(url) && ("http://"@.is_prefix_of(url)
                || "https://"@.is_prefix_of(url))
            &&& config::messages_url(input) matches Err(error) ==> error == ConfigError::EmptyUrl
                || error == ConfigError::UrlScheme
            &&& config::messages_url(input) matches Err(error) ==> config::api_base_url(input)
                == Err::<Seq<char>, ConfigError>(error)
            &&& "http://"@.is_prefix_of(address) || "https://"@.is_prefix_of(address)
                ==> config::messages_url(input) is Ok
        }),
{
    let address = text::without_tail(text::trimmed(input), "/"@);
    let full = address + "/v1/messages"@;
    assert(address =~= full.subrange(0, address.len() as int));
    assert(address =~= address.subrange(0, address.len() as int));
    let n = "/v1/messages"@.len();
    assert(full.subrange(full.len() - n, full.len() as int) =~= "/v1/messages"@);
    if "http://"@.is_prefix_of(address) || "https://"@.is_prefix_of(address) {
        lemma_web(address);
        lemma_longer(address, "/v1/messages"@);
    }
}

// ---------------------------------------------------------------------------
// The runtime
// ---------------------------------------------------------------------------

/// A task needs a key and an address of the web, and is handed those that are in force, with the
/// model.
pub proof fn law_tasks_need_a_key(file: ConfigFileView, runtime: SdkRuntimeConfig)
    ensures
        ({
            let refusal = agent_runtime::sdk_refusal(file);
            let has_key = config::usable_key(file.api_key) is Some;
            &&& refusal is None <==> has_key && config::messages_url(file.api_url) is Ok
            &&& !has_key ==> refusal == Some(ConfigError::MissingKey)
            &&& has_key ==> (config::messages_url(file.api_url) matches Err(error) ==> refusal
                == Some(error))
            &&& agent_runtime::is_sdk_config(runtime, file) <==> {
                &&& config::usable_key(file.api_key) == Some(runtime.api_key@)
                &&& config::api_base_url(file.api_url) == Ok::<Seq<char>, ConfigError>(
                    runtime.base_url@,
                )
                &&& runtime.model@ == file.model
            }
        }),
{
}

/// The bridge is taken to be out of reach where the error says that it was not found, could not
/// be started or does not run; and then that is logged for the task.
pub proof fn law_a_missing_bridge_is_known(error: Seq<char>, task_id: Seq<char>)
    ensures
        agent_runtime::is_unavailable(error) <==> text::has_text(error, "无法启动 Agent SDK bridge"@)
            || text::has_text(error, "找不到 Agent SDK bridge"@) || text::has_text(
            error,
            "Agent SDK bridge 尚未启动"@,
        ),
        ({
            let log = agent_runtime::fallback_log(error, task_id);
            &&& log.level == LogLevel::Warn
            &&& log.source == "agent-runtime"@
            &&& log.request_id is None
            &&& log.task_id == Some(task_id)
            &&& log.summary == "Agent SDK 不可用，已切回 legacy runtime"@
            &&& log.detail matches Some(detail) && detail.get("error"@) == Some(
                JsonTree::Text(error),
            )
        }),
        agent_runtime::runtime_name(AgentRuntime::Sdk) == "sdk"@,
        agent_runtime::runtime_name(AgentRuntime::Legacy) == "legacy"@,
{
}

// ---------------------------------------------------------------------------
// The server
// ---------------------------------------------------------------------------

/// A server that runs is shown with its two addresses on this machine; one that does not is shown
/// with none, and one that failed with the reason.
pub proof fn law_the_server_is_shown(port: u16, error: Seq<char>)
    ensures
        server::running(port).status == ServiceStatus::Running,
        server::running(port).mcp_url == Some(
            "http://127.0.0.1:"@ + text::numeral(port as nat) + "/mcp"@,
        ),
        server::running(port).health_url == Some(
            "http://127.0.0.1:"@ + text::numeral(port as nat) + "/health"@,
        ),
        server::running(port).message == "元气满满运行中"@,
        server::stopped().status == ServiceStatus::Stopped,
        server::stopped().mcp_url is None,
        server::stopped().health_url is None,
        server::stopped().message == "休息中"@,
        server::starting().status == ServiceStatus::Starting,
        server::starting().mcp_url is None,
        server::starting().health_url is None,
        server::starting().message == "正在唤醒…"@,
        server::failed(error).status == ServiceStatus::Error,
        server::failed(error).mcp_url is None,
        server::failed(error).health_url is None,
        server::failed(error).message == "端口启动失败："@ + error,
        server::idle().status == server::stopped(),
        server::idle().port is None,
{
}

/// A server is started where the port may be used and it does not run; else nothing changes. It is
/// logged where it is to listen.
pub proof fn law_the_server_is_started(state: ControllerView, port: u16)
    ensures
        ({
            let after = server::after_start(state, port);
            let log = server::start_log(port);
            &&& port < 1024 || state.port is Some ==> after == state
            &&& port >= 1024 && state.port is None ==> after.port is None && after.status.status
                == ServiceStatus::Starting && after.status.mcp_url is None
            &&& log.level == LogLevel::Info
            &&& log.source == "server"@
            &&& log.summary == "准备启动 MCP 服务"@
            &&& log.detail matches Some(detail) && detail.get("host"@) == Some(
                JsonTree::Text("127.0.0.1"@),
            ) && detail.get("port"@) == Some(JsonTree::Integer(port as int))
        }),
{
    lemma_server_words();
}

/// Each item of the menu does what its name says, and no other name does anything.
pub proof fn law_the_menu_does_what_it_says(id: Seq<char>)
    ensures
        tray::action_of(id) == Some(MenuAction::Show) <==> id == "show_window"@,
        tray::action_of(id) == Some(MenuAction::Hide) <==> id == "hide_window"@,
        tray::action_of(id) == Some(MenuAction::Start) <==> id == "start_service"@,
        tray::action_of(id) == Some(MenuAction::Stop) <==> id == "stop_service"@,
        tray::action_of(id) == Some(MenuAction::Copy) <==> id == "copy_mcp_url"@,
        tray::action_of(id) == Some(MenuAction::Quit) <==> id == "quit_app"@,
        tray::action_of(id) is None <==> id != "show_window"@ && id != "hide_window"@ && id
            != "start_service"@ && id != "stop_service"@ && id != "copy_mcp_url"@ && id
            != "quit_app"@,
{
    lemma_menu_words();
}

/// The server can be stopped while it runs or starts, and started while it does not; its address
/// can be copied where it has one.
pub proof fn law_the_menu_follows_the_server(status: StatusView)
    ensures
        ({
            let menu = tray::menu_for(status);
            &&& menu.can_stop <==> status.status == ServiceStatus::Running || status.status
                == ServiceStatus::Starting
            &&& menu.can_start <==> status.status == ServiceStatus::Stopped || status.status
                == ServiceStatus::Error
            &&& menu.can_copy <==> status.mcp_url is Some
        }),
{
}

/// What is done from the menu is logged: what went wrong with its reason, and the address that was
/// copied.
pub proof fn law_the_menu_is_logged(event: TrayEvent)
    ensures
        ({
            let log = tray::tray_log_view(event);
            &&& log.level == LogLevel::Info <==> event is Copied
            &&& log.level == LogLevel::Error <==> !(event is Copied)
            &&& log.request_id is None && log.task_id is None
            &&& event matches TrayEvent::StartFailed(error) ==> log.source == "server"@
                && log.summary == "托盘启动 MCP 服务失败"@ && (log.detail matches Some(detail)
                && detail.get("error"@) == Some(JsonTree::Text(error@)))
            &&& event matches TrayEvent::StopFailed(error) ==> log.source == "server"@
                && log.summary == "托盘停止 MCP 服务失败"@ && (log.detail matches Some(detail)
                && detail.get("error"@) == Some(JsonTree::Text(error@)))
            &&& event matches TrayEvent::Copied(url) ==> log.source == "tray"@ && log.summary
                == "已复制 MCP 地址"@ && (log.detail matches Some(detail) && detail.get("mcp_url"@)
                == Some(JsonTree::Text(url@)))
            &&& event matches TrayEvent::CopyFailed(error) ==> log.source == "tray"@ && log.summary
                == "复制 MCP 地址失败"@ && (log.detail matches Some(detail) && detail.get("error"@)
                == Some(JsonTree::Text(error@)))
        }),
{
}

/// A number below zero is taken for zero, and any other for itself.
pub proof fn law_negative_numbers_are_zero(n: isize)
    ensures
        n < 0 ==> commands::natural(n) == 0,
        n >= 0 ==> commands::natural(n) == n,
{
}

/// A notice is given at once where the interval has passed since the last; else when it has
/// passed, and only one waits for that. A clock that went back counts as no time passed.
pub proof fn law_notices_keep_their_distance(gate: EmitGate, now: u64, interval: u64)
    ensures
        now >= gate.last_ms ==> {
            &&& gate.plan(now, interval) is Now <==> now >= gate.last_ms + interval
            &&& gate.plan(now, interval) matches EmitPlan::After(wait) ==> now + wait
                == gate.last_ms + interval && !gate.pending
            &&& gate.plan(now, interval) is Covered <==> now < gate.last_ms + interval
                && gate.pending
        },
        now < gate.last_ms && interval > 0 ==> {
            &&& gate.plan(now, interval) matches EmitPlan::After(wait) ==> wait == interval
                && !gate.pending
            &&& gate.plan(now, interval) is Covered <==> gate.pending
            &&& !(gate.plan(now, interval) is Now)
        },
{
}

} // verus!
