//! What the window asks for: the checks before a command, and what it is answered.

use vstd::prelude::*;
use vstd::string::*;

use crate::clock;
use crate::config;
use crate::config::{ConfigError, ConfigFile};
use crate::logs;
use crate::logs::{LogEntry, LogLevel, LogPage, LogStore};
use crate::server;
use crate::server::{ServerController, StartStep};
use crate::sessions;
use crate::sessions::{ChatSessionDetail, ChatSessionsSnapshot, SessionError, SessionStore};
use crate::state;
use crate::state::{AppState, StopError};
use crate::text;

verus! {

/// What the user is told when a log entry is not kept any more.
pub const NO_LOG: &'static str = "日志详情不存在或已被清理";

/// What the user is told when a session is not kept any more.
pub const NO_SESSION: &'static str = "聊天记录不存在或已被清理";

/// What the user is told when there is nothing to send.
pub const NO_MESSAGE: &'static str = "续聊内容不能为空";

/// A count that is not negative.
pub open spec fn natural(n: isize) -> usize {
    if n < 0 {
        0
    } else {
        n as usize
    }
}

fn to_natural(n: isize) -> (result: usize)
    ensures
        result == natural(n),
{
    if n < 0 {
        0
    } else {
        n as usize
    }
}

/// A part of the log. Negative bounds count as none.
pub fn get_log_page(log: &LogStore, level: Option<LogLevel>, offset: isize, limit: isize) -> (page:
    LogPage)
    requires
        log.wf(),
    ensures
        page.total == logs::selected(log.entries(), level).len(),
        page.offset == logs::lesser(natural(offset) as int, page.total as int),
        page.limit == logs::lesser(natural(limit) as int, logs::MAX_LOG_PAGE_LIMIT as int),
        page.entries@.len() == logs::lesser(page.limit as int, page.total - page.offset),
        forall|i: int|
            0 <= i < page.entries@.len() ==> (#[trigger] page.entries@[i]).lists(
                logs::selected(log.entries(), level)[page.offset + i],
            ),
        page.dropped == log.dropped(),
        page.latest_id == logs::latest(log.entries()),
{
    log.page(level, to_natural(offset), to_natural(limit))
}

/// One entry of the log, or what to tell the user.
pub fn get_log_detail(log: &LogStore, id: u64) -> (result: Result<LogEntry, String>)
    requires
        log.wf(),
    ensures
        match result {
            Ok(entry) => entry.id == id && log.entries().contains(entry@),
            Err(message) => message@ == NO_LOG@ && forall|i: int|
                0 <= i < log.entries().len() ==> (#[trigger] log.entries()[i]).id != id,
        },
{
    match log.detail(id) {
        Some(entry) => Ok(entry),
        None => Err(NO_LOG.to_owned()),
    }
}

/// The session of a job, or what to tell the user.
pub fn get_chat_session(chats: &mut SessionStore, job_id: &str, limit: Option<usize>) -> (result:
    Result<ChatSessionDetail, String>)
    requires
        old(chats).wf(),
    ensures
        final(chats).wf(),
        final(chats).assistant() == old(chats).assistant(),
        exists|now: i64|
            final(chats).data() == #[trigger] sessions::cleaned(old(chats).data(), now)
                && sessions::is_detail(
                old(chats).assistant(),
                match result {
                    Ok(detail) => Some(detail),
                    Err(_) => None,
                },
                final(chats).data().sessions,
                job_id@,
                limit,
                now,
            ),
        result matches Err(message) ==> message@ == NO_SESSION@,
{
    match chats.detail(job_id, limit) {
        Some(detail) => Ok(detail),
        None => Err(NO_SESSION.to_owned()),
    }
}

/// Starts the server on the port of the configuration, where there is a key.
pub fn start_mcp_server(
    controller: &mut ServerController,
    stored: Option<ConfigFile>,
    assistant: &str,
) -> (result: Result<(StartStep, u16), ConfigError>)
    ensures
        ({
            let file = config::in_force(config::stored_view(stored), assistant@);
            let allowed = config::usable_key(file.api_key) is Some;
            &&& final(controller)@ == if allowed {
                server::after_start(old(controller)@, file.port)
            } else {
                old(controller)@
            }
            &&& match result {
                Ok((step, port)) => {
                    &&& allowed
                    &&& config::is_port(file.port)
                    &&& port == file.port
                    &&& match step {
                        StartStep::Running(status) => old(controller)@.port is Some && status@
                            == old(controller)@.status,
                        StartStep::Listen(log) => old(controller)@.port is None && log@
                            == server::start_log(port),
                    }
                },
                Err(error) => error == (if allowed {
                    ConfigError::Port
                } else {
                    ConfigError::MissingKey
                }) && (allowed ==> !config::is_port(file.port)),
            }
        }),
{
    let file = config::load_config_file(stored, assistant);
    if !file.has_api_key() {
        return Err(ConfigError::MissingKey);
    }
    let port: u16 = file.port;
    match controller.start(port) {
        Ok(step) => Ok((step, port)),
        Err(error) => Err(error),
    }
}

/// Checks a message before it is sent. Gives the directory that has to be prepared for it,
/// where one is named.
pub fn check_chat_message(prompt: &str, workdir: Option<String>) -> (result: Result<
    Option<String>,
    String,
>)
    ensures
        match result {
            Ok(dir) => !text::is_blank(prompt@) && text::option_text(dir) == (match workdir {
                Some(named) => if text::is_blank(named@) {
                    None
                } else {
                    Some(named@)
                },
                None => None,
            }),
            Err(message) => text::is_blank(prompt@) && message@ == NO_MESSAGE@,
        },
{
    if text::blank(prompt) {
        return Err(NO_MESSAGE.to_owned());
    }
    match workdir {
        Some(named) => if text::blank(named.as_str()) {
            Ok(None)
        } else {
            Ok(Some(named))
        },
        None => Ok(None),
    }
}

/// Deletes the session of a job, after its running job is cancelled. Gives the job that was
/// cancelled as well.
pub fn delete_chat_session(app: &mut AppState, job_id: &str) -> (result: (
    Option<String>,
    Result<ChatSessionsSnapshot, SessionError>,
))
    requires
        old(app).wf(),
    ensures
        final(app).wf(),
        exists|now: i64| #[trigger]
            state::is_session_deletion(*old(app), *final(app), job_id@, now, result),
{
    let now: i64 = clock::utc_millis();
    let result = app.delete_chat_session_at(job_id, now);
    assert(state::is_session_deletion(*old(app), *app, job_id@, now, result));
    result
}

/// Stops the running job of the session of a job. Gives that job, and shows the sessions.
pub fn stop_chat_session(app: &mut AppState, job_id: &str) -> (result: Result<
    (String, ChatSessionsSnapshot),
    StopError,
>)
    requires
        old(app).wf(),
    ensures
        final(app).wf(),
        exists|now: i64| #[trigger]
            state::is_session_stop(*old(app), *final(app), job_id@, now, result),
{
    let now: i64 = clock::utc_millis();
    let result = app.stop_chat_session_at(job_id, now);
    assert(state::is_session_stop(*old(app), *app, job_id@, now, result));
    result
}

} // verus!
