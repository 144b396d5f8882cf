//! What the daemon does with a request: which call it is, and with what parameters.
use vstd::prelude::*;

use crate::daemon::chat;
use crate::daemon::chat::RunStatus;
use crate::daemon::params;
use crate::daemon::protocol::{EventKind, JsonRpcResponse, RequestId, RequestIdView};
use crate::daemon::{ActiveRequestUpdate, UpdateView};
use crate::json;
use crate::json::{Json, JsonView};
use crate::loop_engine::AgentEvent;
use crate::text;

verus! {

pub const INVALID_PARAMS: i64 = -32602;

pub const METHOD_NOT_FOUND: i64 = -32601;

pub const INTERNAL_ERROR: i64 = -32603;

pub const REQUEST_CANCELLED: i64 = -32800;

pub const REQUEST_CONFLICT: i64 = -32001;

pub const UNKNOWN_OUTCOME: i64 = -32002;

pub const WEB_PAGE_DEFAULT_LIMIT: u64 = 80;

pub const WEB_PAGE_MAX_LIMIT: usize = 200;

/// The message for parameters that do not fit the call.
pub const PARAMS_ERROR: &'static str = "参数无效: 缺少必需字段或字段类型不符";

/// A call with its parameters.
#[derive(Debug)]
pub enum Call {
    /// Send a message to the agent; its parameters are read once it is admitted.
    ChatSend,
    /// Watch a request; its parameters are read when the watch is opened.
    Subscribe,
    /// Save a model; the profile is kept as it came.
    ModelsSave { profile: Json, activate: bool },
    /// Answer a question, or reject it whatever the answer says.
    Resolve {
        approval_id: String,
        approved: Option<bool>,
        session_id: Option<String>,
        owner_run_id: Option<String>,
        revision: Option<i64>,
        rejected: bool,
    },
    /// Load a session, the current one where none is named.
    SessionLoad { session_id: Option<String> },
    /// Load one page of a session.
    SessionLoadPage { session_id: String, offset: u64, limit: u64 },
    /// List the sessions.
    SessionList,
    /// Open a session.
    SessionNew,
    /// Take up a session again.
    SessionResume { session_id: String },
    /// Give the trace of a session.
    SessionTrace { session_id: String },
    /// Give one page of the trace of a session.
    SessionTracePage { session_id: String, offset: u64, limit: u64 },
    /// Tell the mode of permissions.
    PermissionsGet,
    /// Change the mode of permissions.
    PermissionsSet { mode: String },
    /// List the models.
    ModelsList,
    /// Change the model.
    ModelsUse { profile_id: String },
    /// Tell about a question.
    InteractionRead { interaction_id: String },
    /// List the questions of a session.
    InteractionList { session_id: String },
    /// Cancel a request or a run.
    Cancel { request_id: Option<RequestId>, run_id: Option<String>, session_id: Option<String> },
    /// List what waits in a session.
    QueueList { session_id: String },
    /// Tell about one thing that waits.
    QueueRead { session_id: String, run_id: String },
    /// Cancel one thing that waits.
    QueueRemove { session_id: String, run_id: String },
    /// Tell about a run.
    RunRead { run_id: String },
    /// List the tool calls of a run.
    RunTools { run_id: String },
    /// Check a run against what is stored.
    RunAudit { run_id: String },
    /// Settle a run whose end is not known.
    RunReconcile { session_id: String, run_id: String, expected_last_seq: u64, status: RunStatus, content: Option<String>, evidence: String },
    /// Give the stored events of a run.
    RunEvents { run_id: String, after_seq: Option<u64>, limit: Option<u64> },
    /// Run a command line.
    SlashExecute { line: String, session_id: Option<String> },
    /// Stop the daemon.
    DaemonStop,
}

/// What a call says.
pub enum CallView {
    ChatSend,
    Subscribe,
    ModelsSave { profile: JsonView, activate: bool },
    Resolve {
        approval_id: Seq<char>,
        approved: Option<bool>,
        session_id: Option<Seq<char>>,
        owner_run_id: Option<Seq<char>>,
        revision: Option<i64>,
        rejected: bool,
    },
    SessionLoad { session_id: Option<Seq<char>> },
    SessionLoadPage { session_id: Seq<char>, offset: u64, limit: u64 },
    SessionList,
    SessionNew,
    SessionResume { session_id: Seq<char> },
    SessionTrace { session_id: Seq<char> },
    SessionTracePage { session_id: Seq<char>, offset: u64, limit: u64 },
    PermissionsGet,
    PermissionsSet { mode: Seq<char> },
    ModelsList,
    ModelsUse { profile_id: Seq<char> },
    InteractionRead { interaction_id: Seq<char> },
    InteractionList { session_id: Seq<char> },
    Cancel { request_id: Option<RequestIdView>, run_id: Option<Seq<char>>, session_id: Option<Seq<char>> },
    QueueList { session_id: Seq<char> },
    QueueRead { session_id: Seq<char>, run_id: Seq<char> },
    QueueRemove { session_id: Seq<char>, run_id: Seq<char> },
    RunRead { run_id: Seq<char> },
    RunTools { run_id: Seq<char> },
    RunAudit { run_id: Seq<char> },
    RunReconcile { session_id: Seq<char>, run_id: Seq<char>, expected_last_seq: u64, status: RunStatus, content: Option<Seq<char>>, evidence: Seq<char> },
    RunEvents { run_id: Seq<char>, after_seq: Option<u64>, limit: Option<u64> },
    SlashExecute { line: Seq<char>, session_id: Option<Seq<char>> },
    DaemonStop,
}

impl View for Call {
    type V = CallView;

    open spec fn view(&self) -> CallView {
        match *self {
            Call::ChatSend => CallView::ChatSend,
            Call::Subscribe => CallView::Subscribe,
            Call::ModelsSave { profile, activate } => CallView::ModelsSave {
                profile: profile@,
                activate,
            },
            Call::Resolve {
                approval_id,
                approved,
                session_id,
                owner_run_id,
                revision,
                rejected,
            } => CallView::Resolve {
                approval_id: approval_id@,
                approved,
                session_id: json::opt_text(session_id),
                owner_run_id: json::opt_text(owner_run_id),
                revision,
                rejected,
            },
            Call::SessionLoad { session_id } => CallView::SessionLoad {
                session_id: json::opt_text(session_id),
            },
            Call::SessionLoadPage { session_id, offset, limit } => CallView::SessionLoadPage {
                session_id: session_id@,
                offset: offset,
                limit: limit,
            },
            Call::SessionList => CallView::SessionList,
            Call::SessionNew => CallView::SessionNew,
            Call::SessionResume { session_id } => CallView::SessionResume {
                session_id: session_id@,
            },
            Call::SessionTrace { session_id } => CallView::SessionTrace {
                session_id: session_id@,
            },
            Call::SessionTracePage { session_id, offset, limit } => CallView::SessionTracePage {
                session_id: session_id@,
                offset: offset,
                limit: limit,
            },
            Call::PermissionsGet => CallView::PermissionsGet,
            Call::PermissionsSet { mode } => CallView::PermissionsSet {
                mode: mode@,
            },
            Call::ModelsList => CallView::ModelsList,
            Call::ModelsUse { profile_id } => CallView::ModelsUse {
                profile_id: profile_id@,
            },
            Call::InteractionRead { interaction_id } => CallView::InteractionRead {
                interaction_id: interaction_id@,
            },
            Call::InteractionList { session_id } => CallView::InteractionList {
                session_id: session_id@,
            },
            Call::Cancel { request_id, run_id, session_id } => CallView::Cancel {
                request_id: params::opt_id(request_id),
                run_id: json::opt_text(run_id),
                session_id: json::opt_text(session_id),
            },
            Call::QueueList { session_id } => CallView::QueueList {
                session_id: session_id@,
            },
            Call::QueueRead { session_id, run_id } => CallView::QueueRead {
                session_id: session_id@,
                run_id: run_id@,
            },
            Call::QueueRemove { session_id, run_id } => CallView::QueueRemove {
                session_id: session_id@,
                run_id: run_id@,
            },
            Call::RunRead { run_id } => CallView::RunRead {
                run_id: run_id@,
            },
            Call::RunTools { run_id } => CallView::RunTools {
                run_id: run_id@,
            },
            Call::RunAudit { run_id } => CallView::RunAudit {
                run_id: run_id@,
            },
            Call::RunReconcile { session_id, run_id, expected_last_seq, status, content, evidence } => CallView::RunReconcile {
                session_id: session_id@,
                run_id: run_id@,
                expected_last_seq: expected_last_seq,
                status,
                content: json::opt_text(content),
                evidence: evidence@,
            },
            Call::RunEvents { run_id, after_seq, limit } => CallView::RunEvents {
                run_id: run_id@,
                after_seq: after_seq,
                limit: limit,
            },
            Call::SlashExecute { line, session_id } => CallView::SlashExecute {
                line: line@,
                session_id: json::opt_text(session_id),
            },
            Call::DaemonStop => CallView::DaemonStop,
        }
    }
}

/// The name under which a call is answered with what the store gave.
pub open spec fn reply_key(call: CallView) -> Option<Seq<char>> {
    match call {
        CallView::InteractionRead { .. } => Some("interaction"@),
        CallView::InteractionList { .. } => Some("interactions"@),
        CallView::QueueList { .. } => Some("items"@),
        CallView::QueueRead { .. } => Some("item"@),
        CallView::RunTools { .. } => Some("receipts"@),
        CallView::RunEvents { .. } => Some("events"@),
        _ => None,
    }
}

/// How many stored events are given unless the call says so.
pub const DEFAULT_EVENT_LIMIT: u64 = 200;

/// Where the stored events that are asked for begin, and how many there are at most.
pub fn events_window(after_seq: Option<u64>, limit: Option<u64>) -> (r: (u64, u64))
    ensures
        r.0 == (match after_seq {
            Some(n) => n,
            None => 0,
        }),
        r.1 == (match limit {
            Some(n) => n,
            None => DEFAULT_EVENT_LIMIT,
        }),
{
    (
        match after_seq {
            Some(n) => n,
            None => 0,
        },
        match limit {
            Some(n) => n,
            None => DEFAULT_EVENT_LIMIT,
        },
    )
}

impl Call {
    /// The name under which the call is answered with what the store gave.
    pub fn reply_name(&self) -> (r: Option<&'static str>)
        ensures
            json::opt_view(r) == reply_key(self@),
    {
        match self {
            Call::InteractionRead { .. } => Some("interaction"),
            Call::InteractionList { .. } => Some("interactions"),
            Call::QueueList { .. } => Some("items"),
            Call::QueueRead { .. } => Some("item"),
            Call::RunTools { .. } => Some("receipts"),
            Call::RunEvents { .. } => Some("events"),
            _ => None,
        }
    }
}

/// The view of an optional call.
pub open spec fn opt_call(c: Option<Call>) -> Option<CallView> {
    match c {
        Some(v) => Some(v@),
        None => None,
    }
}

/// The parameters of a model that is to be saved.
pub open spec fn save_fields(p: JsonView) -> Option<CallView> {
    match (json::field(p, "profile"@), params::bool_or_false(p, "activate"@)) {
        (Some(profile), Some(activate)) => if profile is Object || profile is Array {
            Some(CallView::ModelsSave { profile, activate })
        } else {
            None
        },
        _ => None,
    }
}

/// The same, by their names or in an array.
pub open spec fn save_call(p: JsonView) -> Option<CallView> {
    save_fields(params::named(p, seq!["profile"@, "activate"@], 1))
}

/// The name of the question that an answer is for, under either of its two keys.
pub open spec fn question_id(p: JsonView) -> Option<Seq<char>> {
    match (json::field(p, "approval_id"@), json::field(p, "interaction_id"@)) {
        (Some(JsonView::Str(s)), None) => Some(s),
        (None, Some(JsonView::Str(s))) => Some(s),
        _ => None,
    }
}

/// The parameters of an answer.
pub open spec fn resolve_fields(p: JsonView, rejected: bool) -> Option<CallView> {
    match (
        question_id(p),
        params::may_bool(p, "approved"@),
        params::may_str(p, "session_id"@),
        params::may_str(p, "owner_run_id"@),
        params::may_i64(p, "revision"@),
    ) {
        (Some(approval_id), Some(approved), Some(session_id), Some(owner_run_id), Some(revision)) =>
            Some(
            CallView::Resolve {
                approval_id,
                approved,
                session_id,
                owner_run_id,
                revision,
                rejected,
            },
        ),
        _ => None,
    }
}

/// The same, by their names or in an array.
pub open spec fn resolve_call(p: JsonView, rejected: bool) -> Option<CallView> {
    resolve_fields(params::named(p, seq!["approval_id"@, "approved"@, "session_id"@, "owner_run_id"@, "revision"@], 1), rejected)
}

/// The parameters of `session.load`.
pub open spec fn session_load_fields(p: JsonView) -> Option<CallView> {
    if !(p is Object) {
        None
    } else {
        match (params::may_str(p, "session_id"@),) {
            (Some(session_id),) => Some(CallView::SessionLoad { session_id }),
            _ => None,
        }
    }
}

/// The same, by their names or in an array.
pub open spec fn session_load_call(p: JsonView) -> Option<CallView> {
    session_load_fields(params::named(p, seq!["session_id"@], 0))
}

/// The parameters of `session.load_page`.
pub open spec fn session_load_page_fields(p: JsonView) -> Option<CallView> {
    if !(p is Object) {
        None
    } else {
        match (params::need_str(p, "session_id"@), params::u64_or(p, "offset"@, 0), params::u64_or(p, "limit"@, WEB_PAGE_DEFAULT_LIMIT)) {
            (Some(session_id), Some(offset), Some(limit)) => Some(CallView::SessionLoadPage { session_id, offset, limit }),
            _ => None,
        }
    }
}

/// The same, by their names or in an array.
pub open spec fn session_load_page_call(p: JsonView) -> Option<CallView> {
    session_load_page_fields(params::named(p, seq!["session_id"@, "offset"@, "limit"@], 1))
}

/// The parameters of `session.resume`.
pub open spec fn session_resume_fields(p: JsonView) -> Option<CallView> {
    if !(p is Object) {
        None
    } else {
        match (params::need_str(p, "session_id"@),) {
            (Some(session_id),) => Some(CallView::SessionResume { session_id }),
            _ => None,
        }
    }
}

/// The same, by their names or in an array.
pub open spec fn session_resume_call(p: JsonView) -> Option<CallView> {
    session_resume_fields(params::named(p, seq!["session_id"@], 1))
}

/// The parameters of `session.trace`.
pub open spec fn session_trace_fields(p: JsonView) -> Option<CallView> {
    if !(p is Object) {
        None
    } else {
        match (params::need_str(p, "session_id"@),) {
            (Some(session_id),) => Some(CallView::SessionTrace { session_id }),
            _ => None,
        }
    }
}

/// The same, by their names or in an array.
pub open spec fn session_trace_call(p: JsonView) -> Option<CallView> {
    session_trace_fields(params::named(p, seq!["session_id"@], 1))
}

/// The parameters of `session.trace_page`.
pub open spec fn session_trace_page_fields(p: JsonView) -> Option<CallView> {
    if !(p is Object) {
        None
    } else {
        match (params::need_str(p, "session_id"@), params::u64_or(p, "offset"@, 0), params::u64_or(p, "limit"@, WEB_PAGE_DEFAULT_LIMIT)) {
            (Some(session_id), Some(offset), Some(limit)) => Some(CallView::SessionTracePage { session_id, offset, limit }),
            _ => None,
        }
    }
}

/// The same, by their names or in an array.
pub open spec fn session_trace_page_call(p: JsonView) -> Option<CallView> {
    session_trace_page_fields(params::named(p, seq!["session_id"@, "offset"@, "limit"@], 1))
}

/// The parameters of `permissions.set`.
pub open spec fn permissions_set_fields(p: JsonView) -> Option<CallView> {
    if !(p is Object) {
        None
    } else {
        match (params::need_str(p, "mode"@),) {
            (Some(mode),) => Some(CallView::PermissionsSet { mode }),
            _ => None,
        }
    }
}

/// The same, by their names or in an array.
pub open spec fn permissions_set_call(p: JsonView) -> Option<CallView> {
    permissions_set_fields(params::named(p, seq!["mode"@], 1))
}

/// The parameters of `models.use`.
pub open spec fn models_use_fields(p: JsonView) -> Option<CallView> {
    if !(p is Object) {
        None
    } else {
        match (params::need_str(p, "profile_id"@),) {
            (Some(profile_id),) => Some(CallView::ModelsUse { profile_id }),
            _ => None,
        }
    }
}

/// The same, by their names or in an array.
pub open spec fn models_use_call(p: JsonView) -> Option<CallView> {
    models_use_fields(params::named(p, seq!["profile_id"@], 1))
}

/// The parameters of `interaction.read`.
pub open spec fn interaction_read_fields(p: JsonView) -> Option<CallView> {
    if !(p is Object) {
        None
    } else {
        match (params::need_str(p, "interaction_id"@),) {
            (Some(interaction_id),) => Some(CallView::InteractionRead { interaction_id }),
            _ => None,
        }
    }
}

/// The same, by their names or in an array.
pub open spec fn interaction_read_call(p: JsonView) -> Option<CallView> {
    interaction_read_fields(params::named(p, seq!["interaction_id"@], 1))
}

/// The parameters of `interaction.list`.
pub open spec fn interaction_list_fields(p: JsonView) -> Option<CallView> {
    if !(p is Object) {
        None
    } else {
        match (params::need_str(p, "session_id"@),) {
            (Some(session_id),) => Some(CallView::InteractionList { session_id }),
            _ => None,
        }
    }
}

/// The same, by their names or in an array.
pub open spec fn interaction_list_call(p: JsonView) -> Option<CallView> {
    interaction_list_fields(params::named(p, seq!["session_id"@], 1))
}

/// The parameters of `agent.cancel`.
pub open spec fn cancel_fields(p: JsonView) -> Option<CallView> {
    if !(p is Object) {
        None
    } else {
        match (params::may_id(p, "request_id"@), params::may_str(p, "run_id"@), params::may_str(p, "session_id"@)) {
            (Some(request_id), Some(run_id), Some(session_id)) => Some(CallView::Cancel { request_id, run_id, session_id }),
            _ => None,
        }
    }
}

/// The same, by their names or in an array.
pub open spec fn cancel_call(p: JsonView) -> Option<CallView> {
    cancel_fields(params::named(p, seq!["request_id"@, "run_id"@, "session_id"@], 0))
}

/// The parameters of `queue.list`.
pub open spec fn queue_list_fields(p: JsonView) -> Option<CallView> {
    if !(p is Object) {
        None
    } else {
        match (params::need_str(p, "session_id"@),) {
            (Some(session_id),) => Some(CallView::QueueList { session_id }),
            _ => None,
        }
    }
}

/// The same, by their names or in an array.
pub open spec fn queue_list_call(p: JsonView) -> Option<CallView> {
    queue_list_fields(params::named(p, seq!["session_id"@], 1))
}

/// The parameters of `queue.read`.
pub open spec fn queue_read_fields(p: JsonView) -> Option<CallView> {
    if !(p is Object) {
        None
    } else {
        match (params::need_str(p, "session_id"@), params::need_str(p, "run_id"@)) {
            (Some(session_id), Some(run_id)) => Some(CallView::QueueRead { session_id, run_id }),
            _ => None,
        }
    }
}

/// The same, by their names or in an array.
pub open spec fn queue_read_call(p: JsonView) -> Option<CallView> {
    queue_read_fields(params::named(p, seq!["session_id"@, "run_id"@], 2))
}

/// The parameters of `queue.remove`.
pub open spec fn queue_remove_fields(p: JsonView) -> Option<CallView> {
    if !(p is Object) {
        None
    } else {
        match (params::need_str(p, "session_id"@), params::need_str(p, "run_id"@)) {
            (Some(session_id), Some(run_id)) => Some(CallView::QueueRemove { session_id, run_id }),
            _ => None,
        }
    }
}

/// The same, by their names or in an array.
pub open spec fn queue_remove_call(p: JsonView) -> Option<CallView> {
    queue_remove_fields(params::named(p, seq!["session_id"@, "run_id"@], 2))
}

/// The parameters of `run.read`.
pub open spec fn run_read_fields(p: JsonView) -> Option<CallView> {
    if !(p is Object) {
        None
    } else {
        match (params::need_str(p, "run_id"@),) {
            (Some(run_id),) => Some(CallView::RunRead { run_id }),
            _ => None,
        }
    }
}

/// The same, by their names or in an array.
pub open spec fn run_read_call(p: JsonView) -> Option<CallView> {
    run_read_fields(params::named(p, seq!["run_id"@], 1))
}

/// The parameters of `run.tools`.
pub open spec fn run_tools_fields(p: JsonView) -> Option<CallView> {
    if !(p is Object) {
        None
    } else {
        match (params::need_str(p, "run_id"@),) {
            (Some(run_id),) => Some(CallView::RunTools { run_id }),
            _ => None,
        }
    }
}

/// The same, by their names or in an array.
pub open spec fn run_tools_call(p: JsonView) -> Option<CallView> {
    run_tools_fields(params::named(p, seq!["run_id"@], 1))
}

/// The parameters of `run.audit`.
pub open spec fn run_audit_fields(p: JsonView) -> Option<CallView> {
    if !(p is Object) {
        None
    } else {
        match (params::need_str(p, "run_id"@),) {
            (Some(run_id),) => Some(CallView::RunAudit { run_id }),
            _ => None,
        }
    }
}

/// The same, by their names or in an array.
pub open spec fn run_audit_call(p: JsonView) -> Option<CallView> {
    run_audit_fields(params::named(p, seq!["run_id"@], 1))
}

/// The parameters of `run.reconcile`.
pub open spec fn run_reconcile_fields(p: JsonView) -> Option<CallView> {
    if !(p is Object) {
        None
    } else {
        match (
            params::need_str(p, "session_id"@),
            params::need_str(p, "run_id"@),
            params::need_u64(p, "expected_last_seq"@),
            params::need_word(p, "status"@),
            params::may_str(p, "content"@),
            params::need_str(p, "evidence"@),
        ) {
            (
                Some(session_id),
                Some(run_id),
                Some(expected_last_seq),
                Some(name),
                Some(content),
                Some(evidence),
            ) => match chat::status_named(name) {
                Some(status) => Some(
                    CallView::RunReconcile {
                        session_id,
                        run_id,
                        expected_last_seq,
                        status,
                        content,
                        evidence,
                    },
                ),
                None => None,
            },
            _ => None,
        }
    }
}

/// The same, by their names or in an array.
pub open spec fn run_reconcile_call(p: JsonView) -> Option<CallView> {
    run_reconcile_fields(params::named(p, seq!["session_id"@, "run_id"@, "expected_last_seq"@, "status"@, "content"@, "evidence"@], 6))
}

/// The parameters of `run.events`.
pub open spec fn run_events_fields(p: JsonView) -> Option<CallView> {
    if !(p is Object) {
        None
    } else {
        match (params::need_str(p, "run_id"@), params::may_u64(p, "after_seq"@), params::may_u64(p, "limit"@)) {
            (Some(run_id), Some(after_seq), Some(limit)) => Some(CallView::RunEvents { run_id, after_seq, limit }),
            _ => None,
        }
    }
}

/// The same, by their names or in an array.
pub open spec fn run_events_call(p: JsonView) -> Option<CallView> {
    run_events_fields(params::named(p, seq!["run_id"@, "after_seq"@, "limit"@], 1))
}

/// The parameters of `slash.execute`.
pub open spec fn slash_execute_fields(p: JsonView) -> Option<CallView> {
    if !(p is Object) {
        None
    } else {
        match (params::need_str(p, "line"@), params::may_str(p, "session_id"@)) {
            (Some(line), Some(session_id)) => Some(CallView::SlashExecute { line, session_id }),
            _ => None,
        }
    }
}

/// The same, by their names or in an array.
pub open spec fn slash_execute_call(p: JsonView) -> Option<CallView> {
    slash_execute_fields(params::named(p, seq!["line"@, "session_id"@], 1))
}

/// The call that a method and its parameters make: the outer option is none for a method
/// that does not exist, the inner one for parameters that do not fit.
pub open spec fn call_of(method: Seq<char>, p: JsonView) -> Option<Option<CallView>> {
    if method == "chat.send"@ {
        Some(Some(CallView::ChatSend))
    } else if method == "agent.subscribe"@ {
        Some(Some(CallView::Subscribe))
    } else if method == "models.save"@ {
        Some(save_call(p))
    } else if method == "approval.respond"@ || method == "interaction.respond"@ {
        Some(resolve_call(p, false))
    } else if method == "interaction.reject"@ {
        Some(resolve_call(p, true))
    } else if method == "session.load"@ {
        Some(session_load_call(p))
    } else if method == "session.load_page"@ {
        Some(session_load_page_call(p))
    } else if method == "session.list"@ {
        Some(Some(CallView::SessionList))
    } else if method == "session.new"@ {
        Some(Some(CallView::SessionNew))
    } else if method == "session.resume"@ {
        Some(session_resume_call(p))
    } else if method == "session.trace"@ {
        Some(session_trace_call(p))
    } else if method == "session.trace_page"@ {
        Some(session_trace_page_call(p))
    } else if method == "permissions.get"@ {
        Some(Some(CallView::PermissionsGet))
    } else if method == "permissions.set"@ {
        Some(permissions_set_call(p))
    } else if method == "models.list"@ {
        Some(Some(CallView::ModelsList))
    } else if method == "models.use"@ {
        Some(models_use_call(p))
    } else if method == "interaction.read"@ {
        Some(interaction_read_call(p))
    } else if method == "interaction.list"@ {
        Some(interaction_list_call(p))
    } else if method == "agent.cancel"@ {
        Some(cancel_call(p))
    } else if method == "queue.list"@ {
        Some(queue_list_call(p))
    } else if method == "queue.read"@ {
        Some(queue_read_call(p))
    } else if method == "queue.remove"@ {
        Some(queue_remove_call(p))
    } else if method == "run.read"@ {
        Some(run_read_call(p))
    } else if method == "run.tools"@ {
        Some(run_tools_call(p))
    } else if method == "run.audit"@ {
        Some(run_audit_call(p))
    } else if method == "run.reconcile"@ {
        Some(run_reconcile_call(p))
    } else if method == "run.events"@ {
        Some(run_events_call(p))
    } else if method == "slash.execute"@ {
        Some(slash_execute_call(p))
    } else if method == "daemon.stop"@ {
        Some(Some(CallView::DaemonStop))
    } else {
        None
    }
}

fn fits(c: Option<Call>) -> (r: Result<Call, (i64, String)>)
    ensures
        match c {
            Some(v) => r is Ok && r->Ok_0@ == v@,
            None => r is Err && r->Err_0.0 == INVALID_PARAMS && r->Err_0.1@ == PARAMS_ERROR@,
        },
{
    match c {
        Some(v) => Ok(v),
        None => Err((INVALID_PARAMS, PARAMS_ERROR.to_owned())),
    }
}

fn read_save(p: &Json) -> (r: Option<Call>)
    ensures
        opt_call(r) == save_call(p@),
{
    let names: [&'static str; 2] = ["profile", "activate"];
    let arranged = params::arrange(p, &names, 1);
    assert(params::name_views(names@) =~= seq!["profile"@, "activate"@]);
    let p = &arranged;
    match (p.get("profile"), params::read_bool_or_false(p, "activate")) {
        (Some(profile), Some(activate)) => match profile {
            Json::Object(_) | Json::Array(_) => Some(
                Call::ModelsSave { profile: profile.clone(), activate },
            ),
            _ => None,
        },
        _ => None,
    }
}

fn read_resolve(p: &Json, rejected: bool) -> (r: Option<Call>)
    ensures
        opt_call(r) == resolve_call(p@, rejected),
{
    let names: [&'static str; 5] = ["approval_id", "approved", "session_id", "owner_run_id", "revision"];
    let arranged = params::arrange(p, &names, 1);
    assert(params::name_views(names@) =~= seq!["approval_id"@, "approved"@, "session_id"@, "owner_run_id"@, "revision"@]);
    let p = &arranged;
    let approval_id = match (p.get("approval_id"), p.get("interaction_id")) {
        (Some(Json::Str(s)), None) => s.clone(),
        (None, Some(Json::Str(s))) => s.clone(),
        _ => return None,
    };
    match (
        params::read_opt_bool(p, "approved"),
        params::read_opt_str(p, "session_id"),
        params::read_opt_str(p, "owner_run_id"),
        params::read_opt_i64(p, "revision"),
    ) {
        (Some(approved), Some(session_id), Some(owner_run_id), Some(revision)) => Some(
            Call::Resolve { approval_id, approved, session_id, owner_run_id, revision, rejected },
        ),
        _ => None,
    }
}

fn read_session_load(p: &Json) -> (r: Option<Call>)
    ensures
        opt_call(r) == session_load_call(p@),
{
    let names: [&'static str; 1] = ["session_id"];
    let arranged = params::arrange(p, &names, 0);
    assert(params::name_views(names@) =~= seq!["session_id"@]);
    let p = &arranged;
    match p {
        Json::Object(_) => {},
        _ => return None,
    }
    match (params::read_opt_str(p, "session_id"),) {
        (Some(session_id),) => Some(Call::SessionLoad { session_id }),
        _ => None,
    }
}

fn read_session_load_page(p: &Json) -> (r: Option<Call>)
    ensures
        opt_call(r) == session_load_page_call(p@),
{
    let names: [&'static str; 3] = ["session_id", "offset", "limit"];
    let arranged = params::arrange(p, &names, 1);
    assert(params::name_views(names@) =~= seq!["session_id"@, "offset"@, "limit"@]);
    let p = &arranged;
    match p {
        Json::Object(_) => {},
        _ => return None,
    }
    match (params::read_str(p, "session_id"), params::read_u64_or(p, "offset", 0), params::read_u64_or(p, "limit", WEB_PAGE_DEFAULT_LIMIT)) {
        (Some(session_id), Some(offset), Some(limit)) => Some(Call::SessionLoadPage { session_id, offset, limit }),
        _ => None,
    }
}

fn read_session_resume(p: &Json) -> (r: Option<Call>)
    ensures
        opt_call(r) == session_resume_call(p@),
{
    let names: [&'static str; 1] = ["session_id"];
    let arranged = params::arrange(p, &names, 1);
    assert(params::name_views(names@) =~= seq!["session_id"@]);
    let p = &arranged;
    match p {
        Json::Object(_) => {},
        _ => return None,
    }
    match (params::read_str(p, "session_id"),) {
        (Some(session_id),) => Some(Call::SessionResume { session_id }),
        _ => None,
    }
}

fn read_session_trace(p: &Json) -> (r: Option<Call>)
    ensures
        opt_call(r) == session_trace_call(p@),
{
    let names: [&'static str; 1] = ["session_id"];
    let arranged = params::arrange(p, &names, 1);
    assert(params::name_views(names@) =~= seq!["session_id"@]);
    let p = &arranged;
    match p {
        Json::Object(_) => {},
        _ => return None,
    }
    match (params::read_str(p, "session_id"),) {
        (Some(session_id),) => Some(Call::SessionTrace { session_id }),
        _ => None,
    }
}

fn read_session_trace_page(p: &Json) -> (r: Option<Call>)
    ensures
        opt_call(r) == session_trace_page_call(p@),
{
    let names: [&'static str; 3] = ["session_id", "offset", "limit"];
    let arranged = params::arrange(p, &names, 1);
    assert(params::name_views(names@) =~= seq!["session_id"@, "offset"@, "limit"@]);
    let p = &arranged;
    match p {
        Json::Object(_) => {},
        _ => return None,
    }
    match (params::read_str(p, "session_id"), params::read_u64_or(p, "offset", 0), params::read_u64_or(p, "limit", WEB_PAGE_DEFAULT_LIMIT)) {
        (Some(session_id), Some(offset), Some(limit)) => Some(Call::SessionTracePage { session_id, offset, limit }),
        _ => None,
    }
}

fn read_permissions_set(p: &Json) -> (r: Option<Call>)
    ensures
        opt_call(r) == permissions_set_call(p@),
{
    let names: [&'static str; 1] = ["mode"];
    let arranged = params::arrange(p, &names, 1);
    assert(params::name_views(names@) =~= seq!["mode"@]);
    let p = &arranged;
    match p {
        Json::Object(_) => {},
        _ => return None,
    }
    match (params::read_str(p, "mode"),) {
        (Some(mode),) => Some(Call::PermissionsSet { mode }),
        _ => None,
    }
}

fn read_models_use(p: &Json) -> (r: Option<Call>)
    ensures
        opt_call(r) == models_use_call(p@),
{
    let names: [&'static str; 1] = ["profile_id"];
    let arranged = params::arrange(p, &names, 1);
    assert(params::name_views(names@) =~= seq!["profile_id"@]);
    let p = &arranged;
    match p {
        Json::Object(_) => {},
        _ => return None,
    }
    match (params::read_str(p, "profile_id"),) {
        (Some(profile_id),) => Some(Call::ModelsUse { profile_id }),
        _ => None,
    }
}

fn read_interaction_read(p: &Json) -> (r: Option<Call>)
    ensures
        opt_call(r) == interaction_read_call(p@),
{
    let names: [&'static str; 1] = ["interaction_id"];
    let arranged = params::arrange(p, &names, 1);
    assert(params::name_views(names@) =~= seq!["interaction_id"@]);
    let p = &arranged;
    match p {
        Json::Object(_) => {},
        _ => return None,
    }
    match (params::read_str(p, "interaction_id"),) {
        (Some(interaction_id),) => Some(Call::InteractionRead { interaction_id }),
        _ => None,
    }
}

fn read_interaction_list(p: &Json) -> (r: Option<Call>)
    ensures
        opt_call(r) == interaction_list_call(p@),
{
    let names: [&'static str; 1] = ["session_id"];
    let arranged = params::arrange(p, &names, 1);
    assert(params::name_views(names@) =~= seq!["session_id"@]);
    let p = &arranged;
    match p {
        Json::Object(_) => {},
        _ => return None,
    }
    match (params::read_str(p, "session_id"),) {
        (Some(session_id),) => Some(Call::InteractionList { session_id }),
        _ => None,
    }
}

fn read_cancel(p: &Json) -> (r: Option<Call>)
    ensures
        opt_call(r) == cancel_call(p@),
{
    let names: [&'static str; 3] = ["request_id", "run_id", "session_id"];
    let arranged = params::arrange(p, &names, 0);
    assert(params::name_views(names@) =~= seq!["request_id"@, "run_id"@, "session_id"@]);
    let p = &arranged;
    match p {
        Json::Object(_) => {},
        _ => return None,
    }
    match (params::read_opt_id(p, "request_id"), params::read_opt_str(p, "run_id"), params::read_opt_str(p, "session_id")) {
        (Some(request_id), Some(run_id), Some(session_id)) => Some(Call::Cancel { request_id, run_id, session_id }),
        _ => None,
    }
}

fn read_queue_list(p: &Json) -> (r: Option<Call>)
    ensures
        opt_call(r) == queue_list_call(p@),
{
    let names: [&'static str; 1] = ["session_id"];
    let arranged = params::arrange(p, &names, 1);
    assert(params::name_views(names@) =~= seq!["session_id"@]);
    let p = &arranged;
    match p {
        Json::Object(_) => {},
        _ => return None,
    }
    match (params::read_str(p, "session_id"),) {
        (Some(session_id),) => Some(Call::QueueList { session_id }),
        _ => None,
    }
}

fn read_queue_read(p: &Json) -> (r: Option<Call>)
    ensures
        opt_call(r) == queue_read_call(p@),
{
    let names: [&'static str; 2] = ["session_id", "run_id"];
    let arranged = params::arrange(p, &names, 2);
    assert(params::name_views(names@) =~= seq!["session_id"@, "run_id"@]);
    let p = &arranged;
    match p {
        Json::Object(_) => {},
        _ => return None,
    }
    match (params::read_str(p, "session_id"), params::read_str(p, "run_id")) {
        (Some(session_id), Some(run_id)) => Some(Call::QueueRead { session_id, run_id }),
        _ => None,
    }
}

fn read_queue_remove(p: &Json) -> (r: Option<Call>)
    ensures
        opt_call(r) == queue_remove_call(p@),
{
    let names: [&'static str; 2] = ["session_id", "run_id"];
    let arranged = params::arrange(p, &names, 2);
    assert(params::name_views(names@) =~= seq!["session_id"@, "run_id"@]);
    let p = &arranged;
    match p {
        Json::Object(_) => {},
        _ => return None,
    }
    match (params::read_str(p, "session_id"), params::read_str(p, "run_id")) {
        (Some(session_id), Some(run_id)) => Some(Call::QueueRemove { session_id, run_id }),
        _ => None,
    }
}

fn read_run_read(p: &Json) -> (r: Option<Call>)
    ensures
        opt_call(r) == run_read_call(p@),
{
    let names: [&'static str; 1] = ["run_id"];
    let arranged = params::arrange(p, &names, 1);
    assert(params::name_views(names@) =~= seq!["run_id"@]);
    let p = &arranged;
    match p {
        Json::Object(_) => {},
        _ => return None,
    }
    match (params::read_str(p, "run_id"),) {
        (Some(run_id),) => Some(Call::RunRead { run_id }),
        _ => None,
    }
}

fn read_run_tools(p: &Json) -> (r: Option<Call>)
    ensures
        opt_call(r) == run_tools_call(p@),
{
    let names: [&'static str; 1] = ["run_id"];
    let arranged = params::arrange(p, &names, 1);
    assert(params::name_views(names@) =~= seq!["run_id"@]);
    let p = &arranged;
    match p {
        Json::Object(_) => {},
        _ => return None,
    }
    match (params::read_str(p, "run_id"),) {
        (Some(run_id),) => Some(Call::RunTools { run_id }),
        _ => None,
    }
}

fn read_run_audit(p: &Json) -> (r: Option<Call>)
    ensures
        opt_call(r) == run_audit_call(p@),
{
    let names: [&'static str; 1] = ["run_id"];
    let arranged = params::arrange(p, &names, 1);
    assert(params::name_views(names@) =~= seq!["run_id"@]);
    let p = &arranged;
    match p {
        Json::Object(_) => {},
        _ => return None,
    }
    match (params::read_str(p, "run_id"),) {
        (Some(run_id),) => Some(Call::RunAudit { run_id }),
        _ => None,
    }
}

fn read_run_reconcile(p: &Json) -> (r: Option<Call>)
    ensures
        opt_call(r) == run_reconcile_call(p@),
{
    let names: [&'static str; 6] = ["session_id", "run_id", "expected_last_seq", "status", "content", "evidence"];
    let arranged = params::arrange(p, &names, 6);
    assert(params::name_views(names@) =~= seq!["session_id"@, "run_id"@, "expected_last_seq"@, "status"@, "content"@, "evidence"@]);
    let p = &arranged;
    match p {
        Json::Object(_) => {},
        _ => return None,
    }
    match (
        params::read_str(p, "session_id"),
        params::read_str(p, "run_id"),
        params::read_u64(p, "expected_last_seq"),
        params::read_word(p, "status"),
        params::read_opt_str(p, "content"),
        params::read_str(p, "evidence"),
    ) {
        (
            Some(session_id),
            Some(run_id),
            Some(expected_last_seq),
            Some(name),
            Some(content),
            Some(evidence),
        ) => match RunStatus::from_name(name.as_str()) {
            Some(status) => Some(
                Call::RunReconcile {
                    session_id,
                    run_id,
                    expected_last_seq,
                    status,
                    content,
                    evidence,
                },
            ),
            None => None,
        },
        _ => None,
    }
}

fn read_run_events(p: &Json) -> (r: Option<Call>)
    ensures
        opt_call(r) == run_events_call(p@),
{
    let names: [&'static str; 3] = ["run_id", "after_seq", "limit"];
    let arranged = params::arrange(p, &names, 1);
    assert(params::name_views(names@) =~= seq!["run_id"@, "after_seq"@, "limit"@]);
    let p = &arranged;
    match p {
        Json::Object(_) => {},
        _ => return None,
    }
    match (params::read_str(p, "run_id"), params::read_opt_u64(p, "after_seq"), params::read_opt_u64(p, "limit")) {
        (Some(run_id), Some(after_seq), Some(limit)) => Some(Call::RunEvents { run_id, after_seq, limit }),
        _ => None,
    }
}

fn read_slash_execute(p: &Json) -> (r: Option<Call>)
    ensures
        opt_call(r) == slash_execute_call(p@),
{
    let names: [&'static str; 2] = ["line", "session_id"];
    let arranged = params::arrange(p, &names, 1);
    assert(params::name_views(names@) =~= seq!["line"@, "session_id"@]);
    let p = &arranged;
    match p {
        Json::Object(_) => {},
        _ => return None,
    }
    match (params::read_str(p, "line"), params::read_opt_str(p, "session_id")) {
        (Some(line), Some(session_id)) => Some(Call::SlashExecute { line, session_id }),
        _ => None,
    }
}

/// Reads a call. A method that does not exist and parameters that do not fit are told
/// apart by the code of the reply.
pub fn route(method: &str, p: &Json) -> (r: Result<Call, (i64, String)>)
    ensures
        match call_of(method@, p@) {
            None => r is Err && r->Err_0.0 == METHOD_NOT_FOUND && r->Err_0.1@
                == "未知 RPC 方法: "@ + method@,
            Some(None) => r is Err && r->Err_0.0 == INVALID_PARAMS && r->Err_0.1@
                == PARAMS_ERROR@,
            Some(Some(c)) => r is Ok && r->Ok_0@ == c,
        },
{
    if text::same(method, "chat.send") {
        return Ok(Call::ChatSend);
    }
    if text::same(method, "agent.subscribe") {
        return Ok(Call::Subscribe);
    }
    if text::same(method, "models.save") {
        return fits(read_save(p));
    }
    if text::same(method, "approval.respond") || text::same(method, "interaction.respond") {
        return fits(read_resolve(p, false));
    }
    if text::same(method, "interaction.reject") {
        return fits(read_resolve(p, true));
    }
    if text::same(method, "session.load") {
        return fits(read_session_load(p));
    }
    if text::same(method, "session.load_page") {
        return fits(read_session_load_page(p));
    }
    if text::same(method, "session.list") {
        return Ok(Call::SessionList);
    }
    if text::same(method, "session.new") {
        return Ok(Call::SessionNew);
    }
    if text::same(method, "session.resume") {
        return fits(read_session_resume(p));
    }
    if text::same(method, "session.trace") {
        return fits(read_session_trace(p));
    }
    if text::same(method, "session.trace_page") {
        return fits(read_session_trace_page(p));
    }
    if text::same(method, "permissions.get") {
        return Ok(Call::PermissionsGet);
    }
    if text::same(method, "permissions.set") {
        return fits(read_permissions_set(p));
    }
    if text::same(method, "models.list") {
        return Ok(Call::ModelsList);
    }
    if text::same(method, "models.use") {
        return fits(read_models_use(p));
    }
    if text::same(method, "interaction.read") {
        return fits(read_interaction_read(p));
    }
    if text::same(method, "interaction.list") {
        return fits(read_interaction_list(p));
    }
    if text::same(method, "agent.cancel") {
        return fits(read_cancel(p));
    }
    if text::same(method, "queue.list") {
        return fits(read_queue_list(p));
    }
    if text::same(method, "queue.read") {
        return fits(read_queue_read(p));
    }
    if text::same(method, "queue.remove") {
        return fits(read_queue_remove(p));
    }
    if text::same(method, "run.read") {
        return fits(read_run_read(p));
    }
    if text::same(method, "run.tools") {
        return fits(read_run_tools(p));
    }
    if text::same(method, "run.audit") {
        return fits(read_run_audit(p));
    }
    if text::same(method, "run.reconcile") {
        return fits(read_run_reconcile(p));
    }
    if text::same(method, "run.events") {
        return fits(read_run_events(p));
    }
    if text::same(method, "slash.execute") {
        return fits(read_slash_execute(p));
    }
    if text::same(method, "daemon.stop") {
        return Ok(Call::DaemonStop);
    }
    let mut e = "未知 RPC 方法: ".to_owned();
    e.append(method);
    Err((METHOD_NOT_FOUND, e))
}

/// The reply to a request.
pub fn send_result(id: RequestId, result: Result<Json, (i64, String)>) -> (r: JsonRpcResponse)
    ensures
        r@ == (match result {
            Ok(value) => crate::daemon::protocol::success_view(id@, value@),
            Err((code, message)) => crate::daemon::protocol::failure_view(id@, code, message@),
        }),
{
    match result {
        Ok(value) => JsonRpcResponse::success(id, value),
        Err((code, message)) => JsonRpcResponse::failure(id, code, message.as_str()),
    }
}

/// A request identifier as a label.
pub open spec fn id_label(id: RequestIdView) -> Seq<char> {
    match id {
        RequestIdView::Number(n) => text::decimal(n as nat),
        RequestIdView::Text(s) => s,
    }
}

/// A request identifier as a label.
pub fn request_id_label(request_id: &RequestId) -> (r: String)
    ensures
        r@ == id_label(request_id@),
{
    match request_id {
        RequestId::Number(n) => text::decimal_text(*n),
        RequestId::String(s) => s.clone(),
    }
}

/// An update that is an event of no stored run.
pub open spec fn live_event(kind: EventKind, data: Seq<(Seq<char>, JsonView)>) -> UpdateView {
    UpdateView::Event { kind, data: JsonView::Object(data), run_id: None, seq: None }
}

/// An optional text as a document.
pub open spec fn or_null(s: Option<Seq<char>>) -> JsonView {
    match s {
        Some(t) => JsonView::Str(t),
        None => JsonView::Null,
    }
}

/// The update that carries an event of a turn.
pub open spec fn event_update(event: AgentEvent) -> UpdateView {
    match event {
        AgentEvent::TurnStarted => live_event(EventKind::TurnStarted, Seq::empty()),
        AgentEvent::ThinkingDelta(d) => live_event(
            EventKind::ThinkingDelta,
            seq![("delta"@, JsonView::Str(d@))],
        ),
        AgentEvent::ThinkingFinished => live_event(EventKind::ThinkingFinished, Seq::empty()),
        AgentEvent::TextDelta(d) => live_event(
            EventKind::TextDelta,
            seq![("delta"@, JsonView::Str(d@))],
        ),
        AgentEvent::ToolStarted { call_id, name, round } => live_event(
            EventKind::ToolStarted,
            seq![
                ("tool_call_id"@, JsonView::Str(call_id@)),
                ("name"@, JsonView::Str(name@)),
                ("round"@, JsonView::Int(round as int)),
            ],
        ),
        AgentEvent::ToolFinished {
            call_id,
            name,
            output,
            round,
            duration_ms,
            success,
            error,
        } => live_event(
            EventKind::ToolFinished,
            seq![
                ("tool_call_id"@, JsonView::Str(call_id@)),
                ("name"@, JsonView::Str(name@)),
                ("output"@, JsonView::Str(output@)),
                ("round"@, JsonView::Int(round as int)),
                ("duration_ms"@, JsonView::Int(duration_ms as int)),
                ("success"@, JsonView::Bool(success)),
                ("error"@, or_null(json::opt_text(error))),
            ],
        ),
        AgentEvent::TurnCompleted { content } => live_event(
            EventKind::TurnCompleted,
            seq![("content"@, JsonView::Str(content@))],
        ),
    }
}

/// Turns an event of a turn into an update for those who watch.
pub fn agent_event_update(event: AgentEvent) -> (r: ActiveRequestUpdate)
    ensures
        r@ == event_update(event),
{
    let mut f = json::no_fields();
    let ghost given = event;
    let kind = match event {
        AgentEvent::TurnStarted => EventKind::TurnStarted,
        AgentEvent::ThinkingDelta(d) => {
            json::put(&mut f, "delta", Json::Str(d));
            EventKind::ThinkingDelta
        },
        AgentEvent::ThinkingFinished => EventKind::ThinkingFinished,
        AgentEvent::TextDelta(d) => {
            json::put(&mut f, "delta", Json::Str(d));
            EventKind::TextDelta
        },
        AgentEvent::ToolStarted { call_id, name, round } => {
            json::put(&mut f, "tool_call_id", Json::Str(call_id));
            json::put(&mut f, "name", Json::Str(name));
            json::put(&mut f, "round", Json::Unsigned(round as u64));
            EventKind::ToolStarted
        },
        AgentEvent::ToolFinished {
            call_id,
            name,
            output,
            round,
            duration_ms,
            success,
            error,
        } => {
            json::put(&mut f, "tool_call_id", Json::Str(call_id));
            json::put(&mut f, "name", Json::Str(name));
            json::put(&mut f, "output", Json::Str(output));
            json::put(&mut f, "round", Json::Unsigned(round as u64));
            json::put(&mut f, "duration_ms", Json::Unsigned(duration_ms));
            json::put(&mut f, "success", Json::Bool(success));
            let e = match error {
                Some(t) => Json::Str(t),
                None => Json::Null,
            };
            json::put(&mut f, "error", e);
            EventKind::ToolFinished
        },
        AgentEvent::TurnCompleted { content } => {
            json::put(&mut f, "content", Json::Str(content));
            EventKind::TurnCompleted
        },
    };
    assert(json::fields_view(f@) =~= event_update(given)->data->Object_0);
    ActiveRequestUpdate::Event { kind, data: json::object(f), run_id: None, seq: None }
}

/// An event as it is stored.
#[derive(Debug)]
pub struct StoredEvent {
    pub run_id: String,
    pub seq: u64,
    pub event: String,
    pub data: Json,
}

/// The update that a stored event gives, where its name is known. The stored content of
/// the assistant counts as the end of the turn.
pub open spec fn stored_update(e: StoredEvent) -> Option<UpdateView> {
    if e.event@ == "assistant_content"@ {
        Some(
            UpdateView::Event {
                kind: EventKind::TurnCompleted,
                data: e.data@,
                run_id: Some(e.run_id@),
                seq: Some(e.seq),
            },
        )
    } else if exists|k: EventKind| #[trigger]
        crate::daemon::protocol::kind_name(k) == e.event@ {
        Some(
            UpdateView::Event {
                kind: choose|k: EventKind| #[trigger]
                    crate::daemon::protocol::kind_name(k) == e.event@,
                data: e.data@,
                run_id: Some(e.run_id@),
                seq: Some(e.seq),
            },
        )
    } else {
        None
    }
}

/// Turns a stored event into an update.
pub fn stored_event_update(event: StoredEvent) -> (r: Option<ActiveRequestUpdate>)
    ensures
        match r {
            Some(u) => stored_update(event) == Some(u@),
            None => stored_update(event) is None,
        },
{
    let kind = if text::same(event.event.as_str(), "assistant_content") {
        EventKind::TurnCompleted
    } else {
        match crate::daemon::protocol::event_from_name(event.event.as_str()) {
            Some(kind) => {
                proof {
                    let other = choose|k: EventKind| #[trigger]
                        crate::daemon::protocol::kind_name(k) == event.event@;
                    crate::daemon::protocol::lemma_kind_names_differ(kind, other);
                }
                kind
            },
            None => return None,
        }
    };
    Some(
        ActiveRequestUpdate::Event {
            kind,
            data: event.data,
            run_id: Some(event.run_id),
            seq: Some(event.seq),
        },
    )
}

/// An update asks a question that no longer waits for its answer.
pub open spec fn resolved(u: UpdateView, pending: Seq<Seq<char>>) -> bool {
    match u {
        UpdateView::Event { kind, data, .. } => {
            let id = json::str_of(json::at_key(json::at_key(data, "approval"@), "id"@));
            kind == EventKind::ApprovalRequired && id is Some && !pending.contains(id->0)
        },
        _ => false,
    }
}

/// Tests whether an update asks a question that no longer waits for its answer.
pub fn is_resolved_approval(update: &ActiveRequestUpdate, pending_ids: &Vec<String>) -> (r: bool)
    ensures
        r == resolved(update@, text::views(pending_ids@)),
{
    match update {
        ActiveRequestUpdate::Event { kind, data, .. } => {
            if *kind != EventKind::ApprovalRequired {
                return false;
            }
            match data.get("approval") {
                Some(a) => match a.str_at("id") {
                    Some(id) => !text::contains_text(pending_ids, id),
                    None => false,
                },
                None => false,
            }
        },
        _ => false,
    }
}

/// What a method stands for: a call comes only of its own method, and a method that stands
/// for nothing is none of those that are known.
pub proof fn law_methods_stand_for_calls(method: Seq<char>, p: JsonView)
    ensures
        ({
            let call = call_of(method, p);
            &&& call is Some && call->0 is Some ==> match call->0->0 {
                CallView::Resolve { rejected, .. } => if rejected {
                    method == "interaction.reject"@
                } else {
                    method == "approval.respond"@ || method == "interaction.respond"@
                },
                CallView::ModelsSave { .. } => method == "models.save"@,
                CallView::ChatSend => method == "chat.send"@,
                CallView::Subscribe => method == "agent.subscribe"@,
                CallView::SessionList => method == "session.list"@,
                CallView::SessionNew => method == "session.new"@,
                CallView::PermissionsGet => method == "permissions.get"@,
                CallView::ModelsList => method == "models.list"@,
                CallView::DaemonStop => method == "daemon.stop"@,
                CallView::SessionLoad { .. } => method == "session.load"@,
                CallView::SessionLoadPage { .. } => method == "session.load_page"@,
                CallView::SessionResume { .. } => method == "session.resume"@,
                CallView::SessionTrace { .. } => method == "session.trace"@,
                CallView::SessionTracePage { .. } => method == "session.trace_page"@,
                CallView::PermissionsSet { .. } => method == "permissions.set"@,
                CallView::ModelsUse { .. } => method == "models.use"@,
                CallView::InteractionRead { .. } => method == "interaction.read"@,
                CallView::InteractionList { .. } => method == "interaction.list"@,
                CallView::Cancel { .. } => method == "agent.cancel"@,
                CallView::QueueList { .. } => method == "queue.list"@,
                CallView::QueueRead { .. } => method == "queue.read"@,
                CallView::QueueRemove { .. } => method == "queue.remove"@,
                CallView::RunRead { .. } => method == "run.read"@,
                CallView::RunTools { .. } => method == "run.tools"@,
                CallView::RunAudit { .. } => method == "run.audit"@,
                CallView::RunReconcile { .. } => method == "run.reconcile"@,
                CallView::RunEvents { .. } => method == "run.events"@,
                CallView::SlashExecute { .. } => method == "slash.execute"@,
            }
            &&& call is None ==> method != "chat.send"@
                && method != "agent.subscribe"@
                && method != "session.list"@
                && method != "session.new"@
                && method != "permissions.get"@
                && method != "models.list"@
                && method != "daemon.stop"@
                && method != "models.save"@
                && method != "approval.respond"@
                && method != "interaction.respond"@
                && method != "interaction.reject"@
                && method != "session.load"@
                && method != "session.load_page"@
                && method != "session.resume"@
                && method != "session.trace"@
                && method != "session.trace_page"@
                && method != "permissions.set"@
                && method != "models.use"@
                && method != "interaction.read"@
                && method != "interaction.list"@
                && method != "agent.cancel"@
                && method != "queue.list"@
                && method != "queue.read"@
                && method != "queue.remove"@
                && method != "run.read"@
                && method != "run.tools"@
                && method != "run.audit"@
                && method != "run.reconcile"@
                && method != "run.events"@
                && method != "slash.execute"@
        }),
{
}

/// The profile that is kept is the one under its name, and it is made active only where that
/// is asked for.
pub proof fn law_models_save_takes_its_fields(p: JsonView)
    requires
        p is Object,
    ensures
        save_call(p) matches Some(call) ==> (call matches CallView::ModelsSave { profile, activate }
            && json::at_key(p, "profile"@) == profile && (activate <==> json::at_key(
            p,
            "activate"@,
        ) == JsonView::Bool(true))),
{
}

/// An answer names its question, under either name, and says what the parameters say; a
/// rejection is one whatever they say.
pub proof fn law_resolve_takes_its_fields(p: JsonView, reject: bool)
    requires
        p is Object,
    ensures
        resolve_call(p, reject) matches Some(call) ==> (call matches CallView::Resolve {
            approval_id,
            approved,
            session_id,
            owner_run_id,
            revision,
            rejected,
        } && rejected == reject && (json::at_key(p, "approval_id"@) == JsonView::Str(approval_id)
            || json::at_key(p, "interaction_id"@) == JsonView::Str(approval_id)) && json::at_key(
            p,
            "approved"@,
        ) == (match approved {
            Some(b) => JsonView::Bool(b),
            None => JsonView::Null,
        }) && json::at_key(p, "session_id"@) == (match session_id {
            Some(s) => JsonView::Str(s),
            None => JsonView::Null,
        }) && json::at_key(p, "owner_run_id"@) == (match owner_run_id {
            Some(s) => JsonView::Str(s),
            None => JsonView::Null,
        }) && json::at_key(p, "revision"@) == (match revision {
            Some(n) => JsonView::Int(n as int),
            None => JsonView::Null,
        })),
{
}

/// Loading a session takes each parameter from under its name.
pub proof fn law_session_load_takes_its_fields(p: JsonView)
    requires
        p is Object,
    ensures
        session_load_call(p) matches Some(call) ==> (call matches CallView::SessionLoad { session_id }
                    && json::at_key(p, "session_id"@) == (match session_id { Some(s) => JsonView::Str(s), None => JsonView::Null })),
{
}

/// Loading a page of a session takes each parameter from under its name.
pub proof fn law_session_load_page_takes_its_fields(p: JsonView)
    requires
        p is Object,
    ensures
        session_load_page_call(p) matches Some(call) ==> (call matches CallView::SessionLoadPage { session_id, offset, limit }
                    && json::at_key(p, "session_id"@) == JsonView::Str(session_id)
                    && (json::field(p, "offset"@) is None ==> offset == 0) && (json::field(p, "offset"@) is Some ==> json::at_key(p, "offset"@) == JsonView::Int(offset as int))
                    && (json::field(p, "limit"@) is None ==> limit == WEB_PAGE_DEFAULT_LIMIT) && (json::field(p, "limit"@) is Some ==> json::at_key(p, "limit"@) == JsonView::Int(limit as int))),
{
}

/// Resuming a session takes each parameter from under its name.
pub proof fn law_session_resume_takes_its_fields(p: JsonView)
    requires
        p is Object,
    ensures
        session_resume_call(p) matches Some(call) ==> (call matches CallView::SessionResume { session_id }
                    && json::at_key(p, "session_id"@) == JsonView::Str(session_id)),
{
}

/// Reading a trace takes each parameter from under its name.
pub proof fn law_session_trace_takes_its_fields(p: JsonView)
    requires
        p is Object,
    ensures
        session_trace_call(p) matches Some(call) ==> (call matches CallView::SessionTrace { session_id }
                    && json::at_key(p, "session_id"@) == JsonView::Str(session_id)),
{
}

/// Reading a page of a trace takes each parameter from under its name.
pub proof fn law_session_trace_page_takes_its_fields(p: JsonView)
    requires
        p is Object,
    ensures
        session_trace_page_call(p) matches Some(call) ==> (call matches CallView::SessionTracePage { session_id, offset, limit }
                    && json::at_key(p, "session_id"@) == JsonView::Str(session_id)
                    && (json::field(p, "offset"@) is None ==> offset == 0) && (json::field(p, "offset"@) is Some ==> json::at_key(p, "offset"@) == JsonView::Int(offset as int))
                    && (json::field(p, "limit"@) is None ==> limit == WEB_PAGE_DEFAULT_LIMIT) && (json::field(p, "limit"@) is Some ==> json::at_key(p, "limit"@) == JsonView::Int(limit as int))),
{
}

/// Setting the permissions takes each parameter from under its name.
pub proof fn law_permissions_set_takes_its_fields(p: JsonView)
    requires
        p is Object,
    ensures
        permissions_set_call(p) matches Some(call) ==> (call matches CallView::PermissionsSet { mode }
                    && json::at_key(p, "mode"@) == JsonView::Str(mode)),
{
}

/// Choosing a model takes each parameter from under its name.
pub proof fn law_models_use_takes_its_fields(p: JsonView)
    requires
        p is Object,
    ensures
        models_use_call(p) matches Some(call) ==> (call matches CallView::ModelsUse { profile_id }
                    && json::at_key(p, "profile_id"@) == JsonView::Str(profile_id)),
{
}

/// Reading an interaction takes each parameter from under its name.
pub proof fn law_interaction_read_takes_its_fields(p: JsonView)
    requires
        p is Object,
    ensures
        interaction_read_call(p) matches Some(call) ==> (call matches CallView::InteractionRead { interaction_id }
                    && json::at_key(p, "interaction_id"@) == JsonView::Str(interaction_id)),
{
}

/// Listing interactions takes each parameter from under its name.
pub proof fn law_interaction_list_takes_its_fields(p: JsonView)
    requires
        p is Object,
    ensures
        interaction_list_call(p) matches Some(call) ==> (call matches CallView::InteractionList { session_id }
                    && json::at_key(p, "session_id"@) == JsonView::Str(session_id)),
{
}

/// A cancellation takes each parameter from under its name.
pub proof fn law_cancel_takes_its_fields(p: JsonView)
    requires
        p is Object,
    ensures
        cancel_call(p) matches Some(call) ==> (call matches CallView::Cancel { request_id, run_id, session_id }
                    && json::at_key(p, "request_id"@) == (match request_id { Some(i) => crate::daemon::protocol::id_json(i), None => JsonView::Null })
                    && json::at_key(p, "run_id"@) == (match run_id { Some(s) => JsonView::Str(s), None => JsonView::Null })
                    && json::at_key(p, "session_id"@) == (match session_id { Some(s) => JsonView::Str(s), None => JsonView::Null })),
{
}

/// Listing a queue takes each parameter from under its name.
pub proof fn law_queue_list_takes_its_fields(p: JsonView)
    requires
        p is Object,
    ensures
        queue_list_call(p) matches Some(call) ==> (call matches CallView::QueueList { session_id }
                    && json::at_key(p, "session_id"@) == JsonView::Str(session_id)),
{
}

/// Reading a queued run takes each parameter from under its name.
pub proof fn law_queue_read_takes_its_fields(p: JsonView)
    requires
        p is Object,
    ensures
        queue_read_call(p) matches Some(call) ==> (call matches CallView::QueueRead { session_id, run_id }
                    && json::at_key(p, "session_id"@) == JsonView::Str(session_id)
                    && json::at_key(p, "run_id"@) == JsonView::Str(run_id)),
{
}

/// Removing a queued run takes each parameter from under its name.
pub proof fn law_queue_remove_takes_its_fields(p: JsonView)
    requires
        p is Object,
    ensures
        queue_remove_call(p) matches Some(call) ==> (call matches CallView::QueueRemove { session_id, run_id }
                    && json::at_key(p, "session_id"@) == JsonView::Str(session_id)
                    && json::at_key(p, "run_id"@) == JsonView::Str(run_id)),
{
}

/// Reading a run takes each parameter from under its name.
pub proof fn law_run_read_takes_its_fields(p: JsonView)
    requires
        p is Object,
    ensures
        run_read_call(p) matches Some(call) ==> (call matches CallView::RunRead { run_id }
                    && json::at_key(p, "run_id"@) == JsonView::Str(run_id)),
{
}

/// Reading the tools of a run takes each parameter from under its name.
pub proof fn law_run_tools_takes_its_fields(p: JsonView)
    requires
        p is Object,
    ensures
        run_tools_call(p) matches Some(call) ==> (call matches CallView::RunTools { run_id }
                    && json::at_key(p, "run_id"@) == JsonView::Str(run_id)),
{
}

/// Auditing a run takes each parameter from under its name.
pub proof fn law_run_audit_takes_its_fields(p: JsonView)
    requires
        p is Object,
    ensures
        run_audit_call(p) matches Some(call) ==> (call matches CallView::RunAudit { run_id }
                    && json::at_key(p, "run_id"@) == JsonView::Str(run_id)),
{
}

/// Reconciling a run takes each parameter from under its name.
pub proof fn law_run_reconcile_takes_its_fields(p: JsonView)
    requires
        p is Object,
    ensures
        run_reconcile_call(p) matches Some(call) ==> (call matches CallView::RunReconcile { session_id, run_id, expected_last_seq, status, content, evidence }
                    && json::at_key(p, "session_id"@) == JsonView::Str(session_id)
                    && json::at_key(p, "run_id"@) == JsonView::Str(run_id)
                    && json::at_key(p, "expected_last_seq"@) == JsonView::Int(expected_last_seq as int)
                    && (json::at_key(p, "status"@) is Str ==> json::at_key(p, "status"@) == JsonView::Str(chat::status_name(status)))
                    && json::at_key(p, "content"@) == (match content { Some(s) => JsonView::Str(s), None => JsonView::Null })
                    && json::at_key(p, "evidence"@) == JsonView::Str(evidence)),
{
}

/// Reading the events of a run takes each parameter from under its name.
pub proof fn law_run_events_takes_its_fields(p: JsonView)
    requires
        p is Object,
    ensures
        run_events_call(p) matches Some(call) ==> (call matches CallView::RunEvents { run_id, after_seq, limit }
                    && json::at_key(p, "run_id"@) == JsonView::Str(run_id)
                    && json::at_key(p, "after_seq"@) == (match after_seq { Some(n) => JsonView::Int(n as int), None => JsonView::Null })
                    && json::at_key(p, "limit"@) == (match limit { Some(n) => JsonView::Int(n as int), None => JsonView::Null })),
{
}

/// A slash command takes each parameter from under its name.
pub proof fn law_slash_execute_takes_its_fields(p: JsonView)
    requires
        p is Object,
    ensures
        slash_execute_call(p) matches Some(call) ==> (call matches CallView::SlashExecute { line, session_id }
                    && json::at_key(p, "line"@) == JsonView::Str(line)
                    && json::at_key(p, "session_id"@) == (match session_id { Some(s) => JsonView::Str(s), None => JsonView::Null })),
{
}

/// What happens in a turn is told as an event of its own kind, with what happened under its
/// name.
pub proof fn law_what_happens_is_told(event: AgentEvent)
    ensures
        ({
            let u = event_update(event);
            &&& u is Event
            &&& u->run_id is None && u->seq is None
            &&& match event {
                AgentEvent::TurnStarted => u->kind == EventKind::TurnStarted,
                AgentEvent::ThinkingDelta(d) => u->kind == EventKind::ThinkingDelta
                    && json::at_key(u->data, "delta"@) == JsonView::Str(d@),
                AgentEvent::ThinkingFinished => u->kind == EventKind::ThinkingFinished,
                AgentEvent::TextDelta(d) => u->kind == EventKind::TextDelta && json::at_key(
                    u->data,
                    "delta"@,
                ) == JsonView::Str(d@),
                AgentEvent::ToolStarted { call_id, name, round } => u->kind
                    == EventKind::ToolStarted && json::at_key(u->data, "tool_call_id"@)
                    == JsonView::Str(call_id@) && json::at_key(u->data, "name"@) == JsonView::Str(
                    name@,
                ) && json::at_key(u->data, "round"@) == JsonView::Int(round as int),
                AgentEvent::ToolFinished {
                    call_id,
                    name,
                    output,
                    round,
                    duration_ms,
                    success,
                    error,
                } => u->kind == EventKind::ToolFinished && json::at_key(u->data, "tool_call_id"@)
                    == JsonView::Str(call_id@) && json::at_key(u->data, "name"@) == JsonView::Str(
                    name@,
                ) && json::at_key(u->data, "output"@) == JsonView::Str(output@) && json::at_key(
                    u->data,
                    "round"@,
                ) == JsonView::Int(round as int) && json::at_key(u->data, "duration_ms"@)
                    == JsonView::Int(duration_ms as int) && json::at_key(u->data, "success"@)
                    == JsonView::Bool(success) && json::at_key(u->data, "error"@) == (match error {
                    Some(e) => JsonView::Str(e@),
                    None => JsonView::Null,
                }),
                AgentEvent::TurnCompleted { content } => u->kind == EventKind::TurnCompleted
                    && json::at_key(u->data, "content"@) == JsonView::Str(content@),
            }
        }),
{
    reveal_strlit("tool_call_id");
    reveal_strlit("name");
    reveal_strlit("output");
    reveal_strlit("round");
    reveal_strlit("duration_ms");
    reveal_strlit("success");
    reveal_strlit("error");
    assert("tool_call_id"@.len() == 12 && "name"@.len() == 4 && "output"@.len() == 6
        && "round"@.len() == 5 && "duration_ms"@.len() == 11 && "success"@.len() == 7
        && "error"@.len() == 5);
    assert("round"@[0] != "error"@[0]);
    let j = event_update(event)->data;
    match event {
        AgentEvent::ThinkingDelta(_) | AgentEvent::TextDelta(_) => json::lemma_field_at(
            j,
            "delta"@,
            0,
        ),
        AgentEvent::TurnCompleted { .. } => json::lemma_field_at(j, "content"@, 0),
        AgentEvent::ToolStarted { .. } => {
            json::lemma_field_at(j, "tool_call_id"@, 0);
            json::lemma_field_at(j, "name"@, 1);
            json::lemma_field_at(j, "round"@, 2);
        },
        AgentEvent::ToolFinished { .. } => {
            json::lemma_field_at(j, "tool_call_id"@, 0);
            json::lemma_field_at(j, "name"@, 1);
            json::lemma_field_at(j, "output"@, 2);
            json::lemma_field_at(j, "round"@, 3);
            json::lemma_field_at(j, "duration_ms"@, 4);
            json::lemma_field_at(j, "success"@, 5);
            json::lemma_field_at(j, "error"@, 6);
        },
        _ => {},
    }
}

/// A stored event is told again with its own run, place and data, and with the kind that its
/// name stands for; a kept answer as the answer.
pub proof fn law_stored_events_are_told_again(e: StoredEvent)
    ensures
        stored_update(e) matches Some(u) ==> (u matches UpdateView::Event {
            kind,
            data,
            run_id,
            seq,
        } && data == e.data@ && run_id == Some(e.run_id@) && seq == Some(e.seq) && (if e.event@
            == "assistant_content"@ {
            kind == EventKind::TurnCompleted
        } else {
            crate::daemon::protocol::kind_name(kind) == e.event@
        })),
        stored_update(e) is None ==> e.event@ != "assistant_content"@ && forall|k: EventKind|
            #[trigger] crate::daemon::protocol::kind_name(k) != e.event@,
{
}

/// Only a question is ever settled, and it is settled exactly where it no longer waits.
pub proof fn law_questions_are_settled(u: UpdateView, pending: Seq<Seq<char>>)
    ensures
        resolved(u, pending) ==> (u matches UpdateView::Event { kind, .. } && kind
            == EventKind::ApprovalRequired),
        u matches UpdateView::Event { kind, data, .. } ==> kind == EventKind::ApprovalRequired ==> (
        json::at_key(json::at_key(data, "approval"@), "id"@) matches JsonView::Str(id) ==> (
        resolved(u, pending) <==> !pending.contains(id))),
{
}

/// A text that is there is told as itself, and else nothing is.
pub proof fn law_texts_are_told(s: Option<Seq<char>>)
    ensures
        s is Some ==> or_null(s) == JsonView::Str(s->0),
        s is None ==> or_null(s) is Null,
{
}

/// An identifier is shown as its number or its text.
pub proof fn law_identifiers_are_shown(n: u64, s: Seq<char>)
    ensures
        text::unsigned_value(id_label(RequestIdView::Number(n)), u64::MAX as nat) == Some(n as nat),
        id_label(RequestIdView::Text(s)) == s,
{
    text::law_decimals_read_back(n as nat, u64::MAX as nat);
}

/// Saving a model fits exactly where each parameter has its type; the parameters may stand in an
/// object, or without their names in an array of the right length, and in nothing else.
pub proof fn law_save_fits_its_types(p: JsonView)
    ensures
        p is Object ==> (save_call(p) is Some <==> (json::at_key(p, "profile"@) is Object || json::at_key(p, "profile"@) is Array) && (json::field(p, "activate"@) is None || json::at_key(p, "activate"@) is Bool)),
        p matches JsonView::Array(v) ==> (v.len() < 1 || v.len() > 2 ==> save_call(p) is None) && (
        1 <= v.len() <= 2 ==> save_call(p) == save_call(
            JsonView::Object(Seq::new(v.len(), |i: int| (seq!["profile"@, "activate"@][i], v[i]))),
        )),
        !(p is Object) && !(p is Array) ==> save_call(p) is None,
{
}

/// Loading a session fits exactly where each parameter has its type; the parameters may stand in an
/// object, or without their names in an array of the right length, and in nothing else.
pub proof fn law_session_load_fits_its_types(p: JsonView)
    ensures
        p is Object ==> (session_load_call(p) is Some <==> (json::at_key(p, "session_id"@) is Null || json::at_key(p, "session_id"@) is Str)),
        p matches JsonView::Array(v) ==> (v.len() > 1 ==> session_load_call(p) is None) && (
        0 <= v.len() <= 1 ==> session_load_call(p) == session_load_call(
            JsonView::Object(Seq::new(v.len(), |i: int| (seq!["session_id"@][i], v[i]))),
        )),
        !(p is Object) && !(p is Array) ==> session_load_call(p) is None,
{
}

/// Loading a page of a session fits exactly where each parameter has its type; the parameters may stand in an
/// object, or without their names in an array of the right length, and in nothing else.
pub proof fn law_session_load_page_fits_its_types(p: JsonView)
    ensures
        p is Object ==> (session_load_page_call(p) is Some <==> json::at_key(p, "session_id"@) is Str && (json::field(p, "offset"@) is None || json::u64_of(json::at_key(p, "offset"@)) is Some) && (json::field(p, "limit"@) is None || json::u64_of(json::at_key(p, "limit"@)) is Some)),
        p matches JsonView::Array(v) ==> (v.len() < 1 || v.len() > 3 ==> session_load_page_call(p) is None) && (
        1 <= v.len() <= 3 ==> session_load_page_call(p) == session_load_page_call(
            JsonView::Object(Seq::new(v.len(), |i: int| (seq!["session_id"@, "offset"@, "limit"@][i], v[i]))),
        )),
        !(p is Object) && !(p is Array) ==> session_load_page_call(p) is None,
{
}

/// Resuming a session fits exactly where each parameter has its type; the parameters may stand in an
/// object, or without their names in an array of the right length, and in nothing else.
pub proof fn law_session_resume_fits_its_types(p: JsonView)
    ensures
        p is Object ==> (session_resume_call(p) is Some <==> json::at_key(p, "session_id"@) is Str),
        p matches JsonView::Array(v) ==> (v.len() < 1 || v.len() > 1 ==> session_resume_call(p) is None) && (
        1 <= v.len() <= 1 ==> session_resume_call(p) == session_resume_call(
            JsonView::Object(Seq::new(v.len(), |i: int| (seq!["session_id"@][i], v[i]))),
        )),
        !(p is Object) && !(p is Array) ==> session_resume_call(p) is None,
{
}

/// The trace of a session fits exactly where each parameter has its type; the parameters may stand in an
/// object, or without their names in an array of the right length, and in nothing else.
pub proof fn law_session_trace_fits_its_types(p: JsonView)
    ensures
        p is Object ==> (session_trace_call(p) is Some <==> json::at_key(p, "session_id"@) is Str),
        p matches JsonView::Array(v) ==> (v.len() < 1 || v.len() > 1 ==> session_trace_call(p) is None) && (
        1 <= v.len() <= 1 ==> session_trace_call(p) == session_trace_call(
            JsonView::Object(Seq::new(v.len(), |i: int| (seq!["session_id"@][i], v[i]))),
        )),
        !(p is Object) && !(p is Array) ==> session_trace_call(p) is None,
{
}

/// A page of the trace of a session fits exactly where each parameter has its type; the parameters may stand in an
/// object, or without their names in an array of the right length, and in nothing else.
pub proof fn law_session_trace_page_fits_its_types(p: JsonView)
    ensures
        p is Object ==> (session_trace_page_call(p) is Some <==> json::at_key(p, "session_id"@) is Str && (json::field(p, "offset"@) is None || json::u64_of(json::at_key(p, "offset"@)) is Some) && (json::field(p, "limit"@) is None || json::u64_of(json::at_key(p, "limit"@)) is Some)),
        p matches JsonView::Array(v) ==> (v.len() < 1 || v.len() > 3 ==> session_trace_page_call(p) is None) && (
        1 <= v.len() <= 3 ==> session_trace_page_call(p) == session_trace_page_call(
            JsonView::Object(Seq::new(v.len(), |i: int| (seq!["session_id"@, "offset"@, "limit"@][i], v[i]))),
        )),
        !(p is Object) && !(p is Array) ==> session_trace_page_call(p) is None,
{
}

/// Setting the permissions fits exactly where each parameter has its type; the parameters may stand in an
/// object, or without their names in an array of the right length, and in nothing else.
pub proof fn law_permissions_set_fits_its_types(p: JsonView)
    ensures
        p is Object ==> (permissions_set_call(p) is Some <==> json::at_key(p, "mode"@) is Str),
        p matches JsonView::Array(v) ==> (v.len() < 1 || v.len() > 1 ==> permissions_set_call(p) is None) && (
        1 <= v.len() <= 1 ==> permissions_set_call(p) == permissions_set_call(
            JsonView::Object(Seq::new(v.len(), |i: int| (seq!["mode"@][i], v[i]))),
        )),
        !(p is Object) && !(p is Array) ==> permissions_set_call(p) is None,
{
}

/// Using a model fits exactly where each parameter has its type; the parameters may stand in an
/// object, or without their names in an array of the right length, and in nothing else.
pub proof fn law_models_use_fits_its_types(p: JsonView)
    ensures
        p is Object ==> (models_use_call(p) is Some <==> json::at_key(p, "profile_id"@) is Str),
        p matches JsonView::Array(v) ==> (v.len() < 1 || v.len() > 1 ==> models_use_call(p) is None) && (
        1 <= v.len() <= 1 ==> models_use_call(p) == models_use_call(
            JsonView::Object(Seq::new(v.len(), |i: int| (seq!["profile_id"@][i], v[i]))),
        )),
        !(p is Object) && !(p is Array) ==> models_use_call(p) is None,
{
}

/// Reading a question fits exactly where each parameter has its type; the parameters may stand in an
/// object, or without their names in an array of the right length, and in nothing else.
pub proof fn law_interaction_read_fits_its_types(p: JsonView)
    ensures
        p is Object ==> (interaction_read_call(p) is Some <==> json::at_key(p, "interaction_id"@) is Str),
        p matches JsonView::Array(v) ==> (v.len() < 1 || v.len() > 1 ==> interaction_read_call(p) is None) && (
        1 <= v.len() <= 1 ==> interaction_read_call(p) == interaction_read_call(
            JsonView::Object(Seq::new(v.len(), |i: int| (seq!["interaction_id"@][i], v[i]))),
        )),
        !(p is Object) && !(p is Array) ==> interaction_read_call(p) is None,
{
}

/// Listing questions fits exactly where each parameter has its type; the parameters may stand in an
/// object, or without their names in an array of the right length, and in nothing else.
pub proof fn law_interaction_list_fits_its_types(p: JsonView)
    ensures
        p is Object ==> (interaction_list_call(p) is Some <==> json::at_key(p, "session_id"@) is Str),
        p matches JsonView::Array(v) ==> (v.len() < 1 || v.len() > 1 ==> interaction_list_call(p) is None) && (
        1 <= v.len() <= 1 ==> interaction_list_call(p) == interaction_list_call(
            JsonView::Object(Seq::new(v.len(), |i: int| (seq!["session_id"@][i], v[i]))),
        )),
        !(p is Object) && !(p is Array) ==> interaction_list_call(p) is None,
{
}

/// A cancellation fits exactly where each parameter has its type; the parameters may stand in an
/// object, or without their names in an array of the right length, and in nothing else.
pub proof fn law_cancel_fits_its_types(p: JsonView)
    ensures
        p is Object ==> (cancel_call(p) is Some <==> (json::at_key(p, "request_id"@) is Null || crate::daemon::protocol::json_id(json::at_key(p, "request_id"@)) is Some) && (json::at_key(p, "run_id"@) is Null || json::at_key(p, "run_id"@) is Str) && (json::at_key(p, "session_id"@) is Null || json::at_key(p, "session_id"@) is Str)),
        p matches JsonView::Array(v) ==> (v.len() > 3 ==> cancel_call(p) is None) && (
        0 <= v.len() <= 3 ==> cancel_call(p) == cancel_call(
            JsonView::Object(Seq::new(v.len(), |i: int| (seq!["request_id"@, "run_id"@, "session_id"@][i], v[i]))),
        )),
        !(p is Object) && !(p is Array) ==> cancel_call(p) is None,
{
}

/// Listing the queue fits exactly where each parameter has its type; the parameters may stand in an
/// object, or without their names in an array of the right length, and in nothing else.
pub proof fn law_queue_list_fits_its_types(p: JsonView)
    ensures
        p is Object ==> (queue_list_call(p) is Some <==> json::at_key(p, "session_id"@) is Str),
        p matches JsonView::Array(v) ==> (v.len() < 1 || v.len() > 1 ==> queue_list_call(p) is None) && (
        1 <= v.len() <= 1 ==> queue_list_call(p) == queue_list_call(
            JsonView::Object(Seq::new(v.len(), |i: int| (seq!["session_id"@][i], v[i]))),
        )),
        !(p is Object) && !(p is Array) ==> queue_list_call(p) is None,
{
}

/// Reading from the queue fits exactly where each parameter has its type; the parameters may stand in an
/// object, or without their names in an array of the right length, and in nothing else.
pub proof fn law_queue_read_fits_its_types(p: JsonView)
    ensures
        p is Object ==> (queue_read_call(p) is Some <==> json::at_key(p, "session_id"@) is Str && json::at_key(p, "run_id"@) is Str),
        p matches JsonView::Array(v) ==> (v.len() < 2 || v.len() > 2 ==> queue_read_call(p) is None) && (
        2 <= v.len() <= 2 ==> queue_read_call(p) == queue_read_call(
            JsonView::Object(Seq::new(v.len(), |i: int| (seq!["session_id"@, "run_id"@][i], v[i]))),
        )),
        !(p is Object) && !(p is Array) ==> queue_read_call(p) is None,
{
}

/// Removing from the queue fits exactly where each parameter has its type; the parameters may stand in an
/// object, or without their names in an array of the right length, and in nothing else.
pub proof fn law_queue_remove_fits_its_types(p: JsonView)
    ensures
        p is Object ==> (queue_remove_call(p) is Some <==> json::at_key(p, "session_id"@) is Str && json::at_key(p, "run_id"@) is Str),
        p matches JsonView::Array(v) ==> (v.len() < 2 || v.len() > 2 ==> queue_remove_call(p) is None) && (
        2 <= v.len() <= 2 ==> queue_remove_call(p) == queue_remove_call(
            JsonView::Object(Seq::new(v.len(), |i: int| (seq!["session_id"@, "run_id"@][i], v[i]))),
        )),
        !(p is Object) && !(p is Array) ==> queue_remove_call(p) is None,
{
}

/// Reading a run fits exactly where each parameter has its type; the parameters may stand in an
/// object, or without their names in an array of the right length, and in nothing else.
pub proof fn law_run_read_fits_its_types(p: JsonView)
    ensures
        p is Object ==> (run_read_call(p) is Some <==> json::at_key(p, "run_id"@) is Str),
        p matches JsonView::Array(v) ==> (v.len() < 1 || v.len() > 1 ==> run_read_call(p) is None) && (
        1 <= v.len() <= 1 ==> run_read_call(p) == run_read_call(
            JsonView::Object(Seq::new(v.len(), |i: int| (seq!["run_id"@][i], v[i]))),
        )),
        !(p is Object) && !(p is Array) ==> run_read_call(p) is None,
{
}

/// Listing the tools of a run fits exactly where each parameter has its type; the parameters may stand in an
/// object, or without their names in an array of the right length, and in nothing else.
pub proof fn law_run_tools_fits_its_types(p: JsonView)
    ensures
        p is Object ==> (run_tools_call(p) is Some <==> json::at_key(p, "run_id"@) is Str),
        p matches JsonView::Array(v) ==> (v.len() < 1 || v.len() > 1 ==> run_tools_call(p) is None) && (
        1 <= v.len() <= 1 ==> run_tools_call(p) == run_tools_call(
            JsonView::Object(Seq::new(v.len(), |i: int| (seq!["run_id"@][i], v[i]))),
        )),
        !(p is Object) && !(p is Array) ==> run_tools_call(p) is None,
{
}

/// The audit of a run fits exactly where each parameter has its type; the parameters may stand in an
/// object, or without their names in an array of the right length, and in nothing else.
pub proof fn law_run_audit_fits_its_types(p: JsonView)
    ensures
        p is Object ==> (run_audit_call(p) is Some <==> json::at_key(p, "run_id"@) is Str),
        p matches JsonView::Array(v) ==> (v.len() < 1 || v.len() > 1 ==> run_audit_call(p) is None) && (
        1 <= v.len() <= 1 ==> run_audit_call(p) == run_audit_call(
            JsonView::Object(Seq::new(v.len(), |i: int| (seq!["run_id"@][i], v[i]))),
        )),
        !(p is Object) && !(p is Array) ==> run_audit_call(p) is None,
{
}

/// Reconciling a run fits exactly where each parameter has its type; the parameters may stand in an
/// object, or without their names in an array of the right length, and in nothing else.
pub proof fn law_run_reconcile_fits_its_types(p: JsonView)
    ensures
        p is Object ==> (run_reconcile_call(p) is Some <==> json::at_key(p, "session_id"@) is Str && json::at_key(p, "run_id"@) is Str && json::u64_of(json::at_key(p, "expected_last_seq"@)) is Some && ((json::at_key(p, "status"@) matches JsonView::Str(w) && chat::status_named(w) is Some) || (json::at_key(p, "status"@) matches JsonView::Object(f) && f.len() == 1 && f[0].1 is Null && chat::status_named(f[0].0) is Some)) && (json::at_key(p, "content"@) is Null || json::at_key(p, "content"@) is Str) && json::at_key(p, "evidence"@) is Str),
        p matches JsonView::Array(v) ==> (v.len() < 6 || v.len() > 6 ==> run_reconcile_call(p) is None) && (
        6 <= v.len() <= 6 ==> run_reconcile_call(p) == run_reconcile_call(
            JsonView::Object(Seq::new(v.len(), |i: int| (seq!["session_id"@, "run_id"@, "expected_last_seq"@, "status"@, "content"@, "evidence"@][i], v[i]))),
        )),
        !(p is Object) && !(p is Array) ==> run_reconcile_call(p) is None,
{
}

/// Listing the events of a run fits exactly where each parameter has its type; the parameters may stand in an
/// object, or without their names in an array of the right length, and in nothing else.
pub proof fn law_run_events_fits_its_types(p: JsonView)
    ensures
        p is Object ==> (run_events_call(p) is Some <==> json::at_key(p, "run_id"@) is Str && (json::at_key(p, "after_seq"@) is Null || json::u64_of(json::at_key(p, "after_seq"@)) is Some) && (json::at_key(p, "limit"@) is Null || json::u64_of(json::at_key(p, "limit"@)) is Some)),
        p matches JsonView::Array(v) ==> (v.len() < 1 || v.len() > 3 ==> run_events_call(p) is None) && (
        1 <= v.len() <= 3 ==> run_events_call(p) == run_events_call(
            JsonView::Object(Seq::new(v.len(), |i: int| (seq!["run_id"@, "after_seq"@, "limit"@][i], v[i]))),
        )),
        !(p is Object) && !(p is Array) ==> run_events_call(p) is None,
{
}

/// Executing a command fits exactly where each parameter has its type; the parameters may stand in an
/// object, or without their names in an array of the right length, and in nothing else.
pub proof fn law_slash_execute_fits_its_types(p: JsonView)
    ensures
        p is Object ==> (slash_execute_call(p) is Some <==> json::at_key(p, "line"@) is Str && (json::at_key(p, "session_id"@) is Null || json::at_key(p, "session_id"@) is Str)),
        p matches JsonView::Array(v) ==> (v.len() < 1 || v.len() > 2 ==> slash_execute_call(p) is None) && (
        1 <= v.len() <= 2 ==> slash_execute_call(p) == slash_execute_call(
            JsonView::Object(Seq::new(v.len(), |i: int| (seq!["line"@, "session_id"@][i], v[i]))),
        )),
        !(p is Object) && !(p is Array) ==> slash_execute_call(p) is None,
{
}

/// A method is refused for its parameters only where they do not fit it.
pub proof fn law_only_misfits_are_refused(method: Seq<char>, p: JsonView)
    ensures
        call_of(method, p) == Some(None::<CallView>) ==> (method == "approval.respond"@ && resolve_call(p, false) is None)
            || (method == "interaction.respond"@ && resolve_call(p, false) is None)
            || (method == "interaction.reject"@ && resolve_call(p, true) is None)
            || (method == "models.save"@ && save_call(p) is None) || (method == "session.load"@ && session_load_call(p) is None) || (method == "session.load_page"@ && session_load_page_call(p) is None) || (method == "session.resume"@ && session_resume_call(p) is None) || (method == "session.trace"@ && session_trace_call(p) is None) || (method == "session.trace_page"@ && session_trace_page_call(p) is None) || (method == "permissions.set"@ && permissions_set_call(p) is None) || (method == "models.use"@ && models_use_call(p) is None) || (method == "interaction.read"@ && interaction_read_call(p) is None) || (method == "interaction.list"@ && interaction_list_call(p) is None) || (method == "agent.cancel"@ && cancel_call(p) is None) || (method == "queue.list"@ && queue_list_call(p) is None) || (method == "queue.read"@ && queue_read_call(p) is None) || (method == "queue.remove"@ && queue_remove_call(p) is None) || (method == "run.read"@ && run_read_call(p) is None) || (method == "run.tools"@ && run_tools_call(p) is None) || (method == "run.audit"@ && run_audit_call(p) is None) || (method == "run.reconcile"@ && run_reconcile_call(p) is None) || (method == "run.events"@ && run_events_call(p) is None) || (method == "slash.execute"@ && slash_execute_call(p) is None),
{
}

/// An answer fits exactly where it names one question, under one of the two names, and its
/// other parameters have their types.
pub proof fn law_resolve_fits_its_types(p: JsonView, rejected: bool)
    ensures
        p is Object ==> (resolve_call(p, rejected) is Some <==> ((json::at_key(p, "approval_id"@) is Str && json::field(p, "interaction_id"@) is None)
            || (json::at_key(p, "interaction_id"@) is Str && json::field(p, "approval_id"@) is None))
            && (json::at_key(p, "approved"@) is Null || json::at_key(p, "approved"@) is Bool) && (json::at_key(p, "session_id"@) is Null || json::at_key(p, "session_id"@) is Str) && (json::at_key(p, "owner_run_id"@) is Null || json::at_key(p, "owner_run_id"@) is Str) && (json::at_key(p, "revision"@) is Null || (json::at_key(p, "revision"@) matches JsonView::Int(n) && i64::MIN <= n <= i64::MAX))),
        p matches JsonView::Array(v) ==> 1 <= v.len() <= 5 ==> resolve_call(p, rejected) == resolve_call(
            JsonView::Object(Seq::new(v.len(), |i: int| (seq!["approval_id"@, "approved"@, "session_id"@, "owner_run_id"@, "revision"@][i], v[i]))),
            rejected,
        ),
{
}

} // verus!
