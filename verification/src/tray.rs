//! The menu in the system tray.

use vstd::prelude::*;
use vstd::string::*;

use crate::json;
use crate::json::{Json, JsonObject, JsonTree};
use crate::logs::{LogDraft, LogDraftView, LogLevel};
use crate::server;
use crate::server::{ServerStatus, ServiceStatus, StatusView};
use crate::text;

verus! {

/// The identifier of the item that shows the window.
pub const MENU_SHOW: &'static str = "show_window";

/// The identifier of the item that hides the window.
pub const MENU_HIDE: &'static str = "hide_window";

/// The identifier of the item that starts the server.
pub const MENU_START: &'static str = "start_service";

/// The identifier of the item that stops the server.
pub const MENU_STOP: &'static str = "stop_service";

/// The identifier of the item that copies the server's address.
pub const MENU_COPY: &'static str = "copy_mcp_url";

/// The identifier of the item that quits.
pub const MENU_QUIT: &'static str = "quit_app";

/// The event that tells listeners of the server's status.
pub const SERVER_STATUS_EVENT: &'static str = "server-status-updated";

/// What an item of the menu does.
#[derive(Debug, Clone, Copy, PartialEq, Eq, Structural)]
pub enum MenuAction {
    Show,
    Hide,
    Start,
    Stop,
    Copy,
    Quit,
}

/// What the item with an identifier does.
pub open spec fn action_of(id: Seq<char>) -> Option<MenuAction> {
    if id == MENU_SHOW@ {
        Some(MenuAction::Show)
    } else if id == MENU_HIDE@ {
        Some(MenuAction::Hide)
    } else if id == MENU_START@ {
        Some(MenuAction::Start)
    } else if id == MENU_STOP@ {
        Some(MenuAction::Stop)
    } else if id == MENU_COPY@ {
        Some(MenuAction::Copy)
    } else if id == MENU_QUIT@ {
        Some(MenuAction::Quit)
    } else {
        None
    }
}

/// What the item with an identifier does.
pub fn handle_menu_event(id: &str) -> (action: Option<MenuAction>)
    ensures
        action == action_of(id@),
{
    if text::same_text(id, MENU_SHOW) {
        Some(MenuAction::Show)
    } else if text::same_text(id, MENU_HIDE) {
        Some(MenuAction::Hide)
    } else if text::same_text(id, MENU_START) {
        Some(MenuAction::Start)
    } else if text::same_text(id, MENU_STOP) {
        Some(MenuAction::Stop)
    } else if text::same_text(id, MENU_COPY) {
        Some(MenuAction::Copy)
    } else if text::same_text(id, MENU_QUIT) {
        Some(MenuAction::Quit)
    } else {
        None
    }
}

/// Which items of the menu can be used.
#[derive(Debug, Clone, Copy, PartialEq, Eq, Structural)]
pub struct TrayMenu {
    pub can_start: bool,
    pub can_stop: bool,
    pub can_copy: bool,
}

/// Which items can be used while the server has the given status.
pub open spec fn menu_for(status: StatusView) -> TrayMenu {
    let up = status.status == ServiceStatus::Running || status.status == ServiceStatus::Starting;
    TrayMenu { can_start: !up, can_stop: up, can_copy: status.mcp_url is Some }
}

/// Which items can be used while the server has the given status.
pub fn update_tray_menu(status: &ServerStatus) -> (menu: TrayMenu)
    ensures
        menu == menu_for(status@),
{
    let up = match status.status {
        ServiceStatus::Running | ServiceStatus::Starting => true,
        _ => false,
    };
    TrayMenu { can_start: !up, can_stop: up, can_copy: status.mcp_url.is_some() }
}

/// The server can be started or stopped, never both; and its address can be copied just
/// while it is running.
pub proof fn law_start_or_stop(port: u16, error: Seq<char>, status: StatusView)
    ensures
        menu_for(status).can_start == !menu_for(status).can_stop,
        menu_for(server::running(port)).can_copy,
        !menu_for(server::stopped()).can_copy,
        !menu_for(server::starting()).can_copy,
        !menu_for(server::failed(error)).can_copy,
{
}

/// What an attempt from the menu came to.
#[derive(Debug)]
pub enum TrayEvent {
    /// The server could not be started; with the reason.
    StartFailed(String),
    /// The server could not be stopped; with the reason.
    StopFailed(String),
    /// The server's address was copied.
    Copied(String),
    /// The server's address could not be copied; with the reason.
    CopyFailed(String),
}

/// What is logged of an attempt from the menu.
pub open spec fn tray_log_view(event: TrayEvent) -> LogDraftView {
    let (level, source, summary, key, value) = match event {
        TrayEvent::StartFailed(error) => (
            LogLevel::Error,
            "server"@,
            "托盘启动 MCP 服务失败"@,
            "error"@,
            error@,
        ),
        TrayEvent::StopFailed(error) => (
            LogLevel::Error,
            "server"@,
            "托盘停止 MCP 服务失败"@,
            "error"@,
            error@,
        ),
        TrayEvent::Copied(url) => (
            LogLevel::Info,
            "tray"@,
            "已复制 MCP 地址"@,
            "mcp_url"@,
            url@,
        ),
        TrayEvent::CopyFailed(error) => (
            LogLevel::Error,
            "tray"@,
            "复制 MCP 地址失败"@,
            "error"@,
            error@,
        ),
    };
    LogDraftView {
        level,
        source,
        request_id: None,
        task_id: None,
        summary,
        detail: Some(JsonTree::Object(json::no_fields().insert(key, JsonTree::Text(value)))),
    }
}

/// What to log of an attempt from the menu.
pub fn tray_log(event: &TrayEvent) -> (log: LogDraft)
    ensures
        log@ == tray_log_view(*event),
{
    let (level, source, summary, key, value) = match event {
        TrayEvent::StartFailed(error) => (
            LogLevel::Error,
            "server",
            "托盘启动 MCP 服务失败",
            "error",
            error.as_str(),
        ),
        TrayEvent::StopFailed(error) => (
            LogLevel::Error,
            "server",
            "托盘停止 MCP 服务失败",
            "error",
            error.as_str(),
        ),
        TrayEvent::Copied(url) => (
            LogLevel::Info,
            "tray",
            "已复制 MCP 地址",
            "mcp_url",
            url.as_str(),
        ),
        TrayEvent::CopyFailed(error) => (
            LogLevel::Error,
            "tray",
            "复制 MCP 地址失败",
            "error",
            error.as_str(),
        ),
    };
    let detail = JsonObject::new().with(key, Json::text(value));
    LogDraft::new(level, source, None, None, summary, Some(Json::Object(detail)))
}

} // verus!
