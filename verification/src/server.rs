//! The server's own state: whether it is running, and where it can be reached.

use vstd::prelude::*;
use vstd::string::*;

use crate::config;
use crate::config::ConfigError;
use crate::json;
use crate::json::{Json, JsonObject, JsonTree};
use crate::logs::{LogDraft, LogDraftView, LogLevel};
use crate::text;

verus! {

/// The only address that the server listens on.
pub const HOST: &'static str = "127.0.0.1";

/// How long to wait for the server to stop, in seconds.
pub const STOP_TIMEOUT_SECONDS: u64 = 3;

/// Whether the server is running.
#[derive(Debug, Clone, Copy, PartialEq, Eq, Structural)]
pub enum ServiceStatus {
    Stopped,
    Starting,
    Running,
    Error,
}

/// The server as it is shown.
#[derive(Debug)]
pub struct ServerStatus {
    pub status: ServiceStatus,
    pub mcp_url: Option<String>,
    pub health_url: Option<String>,
    pub message: String,
}

/// What a [`ServerStatus`] says.
#[verifier::ext_equal]
pub struct StatusView {
    pub status: ServiceStatus,
    pub mcp_url: Option<Seq<char>>,
    pub health_url: Option<Seq<char>>,
    pub message: Seq<char>,
}

impl View for ServerStatus {
    type V = StatusView;

    open spec fn view(&self) -> StatusView {
        StatusView {
            status: self.status,
            mcp_url: text::option_text(self.mcp_url),
            health_url: text::option_text(self.health_url),
            message: self.message@,
        }
    }
}

impl Clone for ServerStatus {
    fn clone(&self) -> (copy: Self)
        ensures
            copy@ == self@,
    {
        ServerStatus {
            status: self.status,
            mcp_url: text::copy_option(&self.mcp_url),
            health_url: text::copy_option(&self.health_url),
            message: self.message.clone(),
        }
    }
}

/// A server that is stopped.
pub open spec fn stopped() -> StatusView {
    StatusView {
        status: ServiceStatus::Stopped,
        mcp_url: None,
        health_url: None,
        message: "休息中"@,
    }
}

/// A server that is starting.
pub open spec fn starting() -> StatusView {
    StatusView {
        status: ServiceStatus::Starting,
        mcp_url: None,
        health_url: None,
        message: "正在唤醒…"@,
    }
}

/// A server that could not be started.
pub open spec fn failed(error: Seq<char>) -> StatusView {
    StatusView {
        status: ServiceStatus::Error,
        mcp_url: None,
        health_url: None,
        message: "端口启动失败："@ + error,
    }
}

/// An address of the server.
pub open spec fn url(port: u16, path: &str) -> Seq<char> {
    "http://127.0.0.1:"@ + text::numeral(port as nat) + path@
}

/// A server that is running.
pub open spec fn running(port: u16) -> StatusView {
    StatusView {
        status: ServiceStatus::Running,
        mcp_url: Some(url(port, "/mcp")),
        health_url: Some(url(port, "/health")),
        message: "元气满满运行中"@,
    }
}

fn make_url(port: u16, path: &str) -> (result: String)
    ensures
        result@ == url(port, path),
{
    let mut result = "http://127.0.0.1:".to_owned();
    result.append(text::decimal(port as u64).as_str());
    result.append(path);
    result
}

/// A server that is stopped.
pub fn stopped_status() -> (status: ServerStatus)
    ensures
        status@ == stopped(),
{
    ServerStatus {
        status: ServiceStatus::Stopped,
        mcp_url: None,
        health_url: None,
        message: "休息中".to_owned(),
    }
}

/// The error when the port is taken.
pub const PORT_TAKEN: &'static str = "这个端口已经被别人占用了，换一个试试？";

/// What to do to start the server.
#[derive(Debug)]
pub enum StartStep {
    /// Nothing: it is running.
    Running(ServerStatus),
    /// Empty the log, log this, and listen on the port.
    Listen(LogDraft),
}

/// What the server's state is: how it is shown, and the port that it listens on.
#[verifier::ext_equal]
pub struct ControllerView {
    pub status: StatusView,
    pub port: Option<u16>,
}

/// The server's state.
pub struct ServerController {
    status: ServerStatus,
    port: Option<u16>,
}

impl View for ServerController {
    type V = ControllerView;

    closed spec fn view(&self) -> ControllerView {
        ControllerView { status: self.status@, port: self.port }
    }
}

/// A server that was never started.
pub open spec fn idle() -> ControllerView {
    ControllerView { status: stopped(), port: None }
}

/// The state when the server is to be started on `port`.
pub open spec fn after_start(state: ControllerView, port: u16) -> ControllerView {
    if !config::is_port(port) || state.port is Some {
        state
    } else {
        ControllerView { status: starting(), port: None }
    }
}

/// What is logged of the server.
pub open spec fn server_log(
    level: LogLevel,
    summary: Seq<char>,
    detail: Option<json::Fields>,
) -> LogDraftView {
    LogDraftView {
        level,
        source: "server"@,
        request_id: None,
        task_id: None,
        summary,
        detail: match detail {
            Some(fields) => Some(JsonTree::Object(fields)),
            None => None,
        },
    }
}

/// What is logged when the server is about to start.
pub open spec fn start_log(port: u16) -> LogDraftView {
    server_log(
        LogLevel::Info,
        "准备启动 MCP 服务"@,
        Some(
            json::no_fields().insert("host"@, json::txt(HOST)).insert(
                "port"@,
                JsonTree::Integer(port as int),
            ),
        ),
    )
}

fn make_server_log(level: LogLevel, summary: &str, detail: Option<JsonObject>) -> (log: LogDraft)
    ensures
        log@ == server_log(
            level,
            summary@,
            match detail {
                Some(object) => Some(object.fields()),
                None => None,
            },
        ),
{
    let detail = match detail {
        Some(object) => Some(Json::Object(object)),
        None => None,
    };
    LogDraft::new(level, "server", None, None, summary, detail)
}

impl ServerController {
    /// A server that was never started.
    pub fn new() -> (controller: ServerController)
        ensures
            controller@ == idle(),
    {
        ServerController { status: stopped_status(), port: None }
    }

    /// How the server is shown.
    pub fn status(&self) -> (status: ServerStatus)
        ensures
            status@ == self@.status,
    {
        self.status.clone()
    }

    /// Starts the server on `port`, unless it is running. Says what to do.
    pub fn start(&mut self, port: u16) -> (result: Result<StartStep, ConfigError>)
        ensures
            final(self)@ == after_start(old(self)@, port),
            match result {
                Err(error) => !config::is_port(port) && error == ConfigError::Port,
                Ok(StartStep::Running(status)) => config::is_port(port) && old(self)@.port is Some
                    && status@ == old(self)@.status,
                Ok(StartStep::Listen(log)) => config::is_port(port) && old(self)@.port is None
                    && log@ == start_log(port),
            },
    {
        match config::validate_port(port) {
            Ok(()) => {},
            Err(error) => {
                return Err(error);
            },
        }
        if self.port.is_some() {
            return Ok(StartStep::Running(self.status.clone()));
        }
        self.status = ServerStatus {
            status: ServiceStatus::Starting,
            mcp_url: None,
            health_url: None,
            message: "正在唤醒…".to_owned(),
        };
        let detail = JsonObject::new().with("host", Json::text(HOST)).with(
            "port",
            Json::Unsigned(port as u64),
        );
        Ok(
            StartStep::Listen(
                make_server_log(LogLevel::Info, "准备启动 MCP 服务", Some(detail)),
            ),
        )
    }

    /// Notes that the server listens on `port`. Gives how it is shown and what to log.
    pub fn listening(&mut self, port: u16) -> (result: (ServerStatus, LogDraft))
        ensures
            final(self)@ == (ControllerView { status: running(port), port: Some(port) }),
            result.0@ == running(port),
            result.1@ == server_log(
                LogLevel::Info,
                "MCP 服务启动完成"@,
                Some(
                    json::no_fields().insert(
                        "mcp_url"@,
                        JsonTree::Text(url(port, "/mcp")),
                    ).insert("health_url"@, JsonTree::Text(url(port, "/health"))),
                ),
            ),
    {
        let mcp_url = make_url(port, "/mcp");
        let health_url = make_url(port, "/health");
        let detail = JsonObject::new().with("mcp_url", Json::text(mcp_url.as_str())).with(
            "health_url",
            Json::text(health_url.as_str()),
        );
        self.status = ServerStatus {
            status: ServiceStatus::Running,
            mcp_url: Some(mcp_url),
            health_url: Some(health_url),
            message: "元气满满运行中".to_owned(),
        };
        self.port = Some(port);
        (
            self.status.clone(),
            make_server_log(LogLevel::Info, "MCP 服务启动完成", Some(detail)),
        )
    }

    /// Notes that the server cannot listen on `port`. Gives what to log and what to tell
    /// the user.
    pub fn listen_failed(&mut self, port: u16, error: &str) -> (result: (LogDraft, String))
        ensures
            final(self)@ == (ControllerView { status: failed(error@), port: old(self)@.port }),
            result.0@ == server_log(
                LogLevel::Error,
                "MCP 服务启动失败"@,
                Some(
                    json::no_fields().insert("port"@, JsonTree::Integer(port as int)).insert(
                        "error"@,
                        JsonTree::Text(error@),
                    ),
                ),
            ),
            result.1@ == PORT_TAKEN@,
    {
        let mut message = "端口启动失败：".to_owned();
        message.append(error);
        self.status = ServerStatus {
            status: ServiceStatus::Error,
            mcp_url: None,
            health_url: None,
            message,
        };
        let detail = JsonObject::new().with("port", Json::Unsigned(port as u64)).with(
            "error",
            Json::text(error),
        );
        (
            make_server_log(LogLevel::Error, "MCP 服务启动失败", Some(detail)),
            PORT_TAKEN.to_owned(),
        )
    }

    /// Stops the server, where it is running. Gives what to log before it is shut down.
    pub fn stop(&mut self) -> (log: Option<LogDraft>)
        ensures
            final(self)@ == (ControllerView { status: old(self)@.status, port: None }),
            match log {
                Some(l) => old(self)@.port matches Some(port) && l@ == server_log(
                    LogLevel::Info,
                    "准备关闭 MCP 服务"@,
                    Some(json::no_fields().insert("port"@, JsonTree::Integer(port as int))),
                ),
                None => old(self)@.port is None,
            },
    {
        let port = self.port;
        self.port = None;
        match port {
            Some(port) => {
                let detail = JsonObject::new().with("port", Json::Unsigned(port as u64));
                Some(make_server_log(LogLevel::Info, "准备关闭 MCP 服务", Some(detail)))
            },
            None => None,
        }
    }

    /// Notes that the server is stopped. Gives how it is shown and what to log.
    pub fn stopped(&mut self) -> (result: (ServerStatus, LogDraft))
        ensures
            final(self)@ == (ControllerView { status: stopped(), port: old(self)@.port }),
            result.0@ == stopped(),
            result.1@ == server_log(LogLevel::Info, "MCP 服务已停止"@, None),
    {
        self.status = stopped_status();
        (self.status.clone(), make_server_log(LogLevel::Info, "MCP 服务已停止", None))
    }
}

impl Default for ServerController {
    fn default() -> (controller: Self)
        ensures
            controller@ == idle(),
    {
        ServerController::new()
    }
}

/// To start a server that is running changes nothing.
pub proof fn law_starting_twice_is_starting_once(port: u16, again: u16)
    ensures
        after_start(ControllerView { status: running(port), port: Some(port) }, again) == (
        ControllerView { status: running(port), port: Some(port) }),
{
}

/// The addresses that a running server is shown with are local.
pub proof fn law_addresses_are_local(port: u16)
    ensures
        running(port).mcp_url matches Some(mcp) && "http://127.0.0.1:"@.is_prefix_of(mcp),
        running(port).health_url matches Some(health) && "http://127.0.0.1:"@.is_prefix_of(health),
{
    let start = "http://127.0.0.1:"@;
    let mcp = url(port, "/mcp");
    let health = url(port, "/health");
    assert(mcp.subrange(0, start.len() as int) =~= start);
    assert(health.subrange(0, start.len() as int) =~= start);
}

} // verus!
