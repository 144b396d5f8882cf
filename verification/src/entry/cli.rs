//! The command line: what is printed for what the daemon tells.
use vstd::prelude::*;

use crate::daemon::protocol::{
    EventKind, EventView, FrameView, JsonRpcResponse, RequestId, RequestIdView, ResponseView,
    ServerFrame,
};
use crate::daemon::sessions;
use crate::daemon::sessions::{SessionInfo, SessionInfoView};
use crate::daemon::slash::SlashResponse;
use crate::entry::tui::frames;
use crate::json;
use crate::json::{Json, JsonView};
use crate::provider;
use crate::provider::{Message, MessageView, Role};
use crate::text;

verus! {

fn two(a: &str, b: &str) -> (r: String)
    ensures
        r@ == a@ + b@,
{
    let mut r = a.to_owned();
    r.append(b);
    r
}

/// A question as an event tells it: its identifier and what is asked, or what is missing.
pub open spec fn question_in(data: JsonView) -> Result<(Seq<char>, Seq<char>), Seq<char>> {
    match json::field(data, "approval"@) {
        None => Err("审批事件缺少 approval"@),
        Some(a) => match (
            json::str_of(json::at_key(a, "id"@)),
            json::str_of(json::at_key(a, "prompt"@)),
        ) {
            (None, _) => Err("审批事件缺少 id"@),
            (_, None) => Err("审批事件缺少 prompt"@),
            (Some(id), Some(prompt)) => Ok((id, prompt)),
        },
    }
}

/// A question of an event.
#[derive(Debug)]
pub struct Question {
    pub approval_id: String,
    pub prompt: String,
}

/// Reads the question of an event.
pub fn read_question(data: &Json) -> (r: Result<Question, String>)
    ensures
        match r {
            Ok(q) => question_in(data@) == Ok::<(Seq<char>, Seq<char>), Seq<char>>(
                (q.approval_id@, q.prompt@),
            ),
            Err(e) => question_in(data@) == Err::<(Seq<char>, Seq<char>), Seq<char>>(e@),
        },
{
    let approval = match data.get("approval") {
        Some(a) => a,
        None => return Err("审批事件缺少 approval".to_owned()),
    };
    let id = match approval.str_at("id") {
        Some(s) => s,
        None => return Err("审批事件缺少 id".to_owned()),
    };
    let prompt = match approval.str_at("prompt") {
        Some(s) => s,
        None => return Err("审批事件缺少 prompt".to_owned()),
    };
    Ok(Question { approval_id: id.to_owned(), prompt: prompt.to_owned() })
}

/// What is asked of the user.
pub fn approval_prompt(prompt: &str) -> (r: String)
    ensures
        r@ == "\n需要审批："@ + prompt@ + "\n允许执行？[y/N] "@,
{
    let mut r = two("\n需要审批：", prompt);
    r.append("\n允许执行？[y/N] ");
    r
}

/// An answer allows what was asked.
pub open spec fn allows(answer: Seq<char>) -> bool {
    let word = text::lower(text::trim(answer));
    word == "y"@ || word == "yes"@
}

/// Tests whether an answer allows what was asked.
pub fn answer_allows(answer: &str) -> (r: bool)
    ensures
        r == allows(answer@),
{
    let word = text::lower_text(text::trim_text(answer).as_str());
    text::same(word.as_str(), "y") || text::same(word.as_str(), "yes")
}

/// What is to be done for a frame.
#[derive(Debug)]
pub enum ChatStep {
    Nothing,
    /// Write to the output.
    Print(String),
    /// Write a line to the log.
    Note(String),
    /// Ask the user, and send the answer.
    Ask(Question),
    /// The turn has ended: end the line that was begun, write the answer, then the note.
    Done { end_line: bool, content: Option<String>, note: Option<String> },
    /// The turn has failed: end the line that was begun, and fail.
    Fail { end_line: bool, message: String },
}

/// What is to be done for a frame.
pub enum ChatView {
    Nothing,
    Print(Seq<char>),
    Note(Seq<char>),
    Ask { approval_id: Seq<char>, prompt: Seq<char> },
    Done { end_line: bool, content: Option<Seq<char>>, note: Option<Seq<char>> },
    Fail { end_line: bool, message: Seq<char> },
}

impl View for ChatStep {
    type V = ChatView;

    open spec fn view(&self) -> ChatView {
        match *self {
            ChatStep::Nothing => ChatView::Nothing,
            ChatStep::Print(s) => ChatView::Print(s@),
            ChatStep::Note(s) => ChatView::Note(s@),
            ChatStep::Ask(q) => ChatView::Ask { approval_id: q.approval_id@, prompt: q.prompt@ },
            ChatStep::Done { end_line, content, note } => ChatView::Done {
                end_line,
                content: json::opt_text(content),
                note: json::opt_text(note),
            },
            ChatStep::Fail { end_line, message } => ChatView::Fail { end_line, message: message@ },
        }
    }
}

/// The text of an error that the daemon answered with.
pub open spec fn rpc_error_text(code: i64, message: Seq<char>) -> Seq<char> {
    "daemon RPC "@ + text::signed_decimal(code as int) + ": "@ + message
}

/// The text of an error that the daemon answered with.
pub fn rpc_error(code: i64, message: &str) -> (r: String)
    ensures
        r@ == rpc_error_text(code, message@),
{
    let mut r = two("daemon RPC ", text::signed_decimal_text(code).as_str());
    r.append(": ");
    r.append(message);
    r
}

/// A tool call went well, unless the event says that it did not.
pub open spec fn succeeded(data: JsonView) -> bool {
    match json::bool_of(json::at_key(data, "success"@)) {
        Some(b) => b,
        None => true,
    }
}

/// Why a tool call failed.
pub open spec fn tool_error(data: JsonView) -> Seq<char> {
    match (
        json::str_of(json::at_key(data, "error"@)),
        json::str_of(json::at_key(data, "output"@)),
    ) {
        (Some(e), _) => e,
        (None, Some(o)) => o,
        (None, None) => "未知错误"@,
    }
}

/// The line that tells of a tool call that begins. `again` is put in where a turn is taken up
/// again.
pub open spec fn started_line(data: JsonView, again: bool) -> Seq<char> {
    "\n["@ + (if again {
        "恢复·"@
    } else {
        ""@
    }) + "第 "@ + text::decimal(frames::number_or_zero(data, "round"@) as nat)
        + " 轮·工具开始] "@ + frames::str_or(data, "name"@, "unknown"@)
}

/// The line that tells of a tool call that has ended.
pub open spec fn finished_line(data: JsonView, again: bool) -> Seq<char> {
    let before = "["@ + (if again {
        "恢复"@
    } else {
        ""@
    });
    let name = frames::str_or(data, "name"@, "unknown"@);
    let ms = text::decimal(frames::number_or_zero(data, "duration_ms"@) as nat);
    if succeeded(data) {
        before + "工具完成] "@ + name + " · "@ + ms + "ms"@
    } else {
        before + "工具失败] "@ + name + " · "@ + ms + "ms · "@ + tool_error(data)
    }
}

fn str_or<'a>(data: &'a Json, key: &str, other: &'a str) -> (r: &'a str)
    ensures
        r@ == frames::str_or(data@, key@, other@),
{
    match data.str_at(key) {
        Some(s) => s,
        None => other,
    }
}

fn number_or_zero(data: &Json, key: &str) -> (r: u64)
    ensures
        r == frames::number_or_zero(data@, key@),
{
    match data.u64_at(key) {
        Some(n) => n,
        None => 0,
    }
}

fn tell_started(data: &Json, again: bool) -> (r: String)
    ensures
        r@ == started_line(data@, again),
{
    let mut r = two(
        "\n[",
        if again {
            "恢复·"
        } else {
            ""
        },
    );
    r.append("第 ");
    r.append(text::decimal_text(number_or_zero(data, "round")).as_str());
    r.append(" 轮·工具开始] ");
    r.append(str_or(data, "name", "unknown"));
    r
}

fn tell_finished(data: &Json, again: bool) -> (r: String)
    ensures
        r@ == finished_line(data@, again),
{
    let mut r = two(
        "[",
        if again {
            "恢复"
        } else {
            ""
        },
    );
    let success = match data.bool_at("success") {
        Some(b) => b,
        None => true,
    };
    if success {
        r.append("工具完成] ");
    } else {
        r.append("工具失败] ");
    }
    r.append(str_or(data, "name", "unknown"));
    r.append(" · ");
    r.append(text::decimal_text(number_or_zero(data, "duration_ms")).as_str());
    if success {
        r.append("ms");
    } else {
        r.append("ms · ");
        let error = match (data.str_at("error"), data.str_at("output")) {
            (Some(e), _) => e,
            (None, Some(o)) => o,
            (None, None) => "未知错误",
        };
        r.append(error);
    }
    r
}

/// What is to be done when a turn ends. An answer that was not streamed is written then.
pub open spec fn chat_end(request_id: RequestIdView, r: ResponseView, printed: bool) -> ChatView {
    match r.error {
        Some(e) => ChatView::Fail {
            end_line: printed,
            message: rpc_error_text(e.code, e.message),
        },
        None => ChatView::Done {
            end_line: printed,
            content: if !printed && r.result is Some {
                json::str_of(json::at_key(r.result->0, "content"@))
            } else {
                None
            },
            note: Some("[任务完成] request_id="@ + frames::request_label(request_id)),
        },
    }
}

/// What is to be done for an event.
pub open spec fn chat_event(e: EventView) -> ChatView {
    match e.event {
        EventKind::TextDelta => match json::str_of(json::at_key(e.data, "delta"@)) {
            Some(delta) => ChatView::Print(delta),
            None => ChatView::Nothing,
        },
        EventKind::ToolStarted => ChatView::Note(started_line(e.data, false)),
        EventKind::ToolFinished => ChatView::Note(finished_line(e.data, false)),
        EventKind::ApprovalRequired => match question_in(e.data) {
            Ok(q) => ChatView::Ask { approval_id: q.0, prompt: q.1 },
            Err(m) => ChatView::Fail { end_line: false, message: m },
        },
        _ => ChatView::Nothing,
    }
}

/// What is to be done for a frame.
pub open spec fn chat_frame(request_id: RequestIdView, f: FrameView, printed: bool) -> ChatView {
    match f {
        FrameView::Event(e) => chat_event(e),
        FrameView::Response(r) => chat_end(request_id, r, printed),
    }
}

/// The text of an answer has begun once a piece of it was written.
pub open spec fn printed_after(step: ChatView, printed: bool) -> bool {
    printed || step is Print
}

/// A turn whose events are printed.
#[derive(Debug)]
pub struct ChatPrinter {
    pub request_id: RequestId,
    pub printed_text: bool,
    pub cancellation_sent: bool,
}

fn end_chat(request_id: &RequestId, response: &JsonRpcResponse, printed: bool) -> (r: ChatStep)
    ensures
        r@ == chat_end(request_id@, response@, printed),
{
    if let Some(e) = &response.error {
        return ChatStep::Fail {
            end_line: printed,
            message: rpc_error(e.code, e.message.as_str()),
        };
    }
    let mut content: Option<String> = None;
    if !printed {
        if let Some(result) = &response.result {
            content = match result.str_at("content") {
                Some(s) => Some(s.to_owned()),
                None => None,
            };
        }
    }
    let note = two("[任务完成] request_id=", frames::label_request(request_id).as_str());
    ChatStep::Done { end_line: printed, content, note: Some(note) }
}

/// The text of the failure when the daemon goes away.
pub const CHAT_CLOSED: &'static str = "daemon 在返回终态响应前断开";

/// What is said when a turn is to be stopped.
pub const CANCELLING: &'static str = "\n正在取消本轮……";

impl ChatPrinter {
    /// A turn of which nothing was heard yet.
    pub fn new(request_id: RequestId) -> (r: Self)
        ensures
            r.request_id@ == request_id@,
            !r.printed_text,
            !r.cancellation_sent,
    {
        ChatPrinter { request_id, printed_text: false, cancellation_sent: false }
    }

    /// What is to be done for a frame.
    pub fn on_frame(&mut self, frame: &ServerFrame) -> (r: ChatStep)
        ensures
            r@ == chat_frame(old(self).request_id@, frame@, old(self).printed_text),
            final(self).request_id == old(self).request_id,
            final(self).cancellation_sent == old(self).cancellation_sent,
            final(self).printed_text == printed_after(r@, old(self).printed_text),
    {
        match frame {
            ServerFrame::Event(event) => match event.event {
                EventKind::TextDelta => match event.data.str_at("delta") {
                    Some(delta) => {
                        self.printed_text = true;
                        ChatStep::Print(delta.to_owned())
                    },
                    None => ChatStep::Nothing,
                },
                EventKind::ToolStarted => ChatStep::Note(tell_started(&event.data, false)),
                EventKind::ToolFinished => ChatStep::Note(tell_finished(&event.data, false)),
                EventKind::ApprovalRequired => match read_question(&event.data) {
                    Ok(q) => ChatStep::Ask(q),
                    Err(message) => ChatStep::Fail { end_line: false, message },
                },
                _ => ChatStep::Nothing,
            },
            ServerFrame::Response(response) => end_chat(
                &self.request_id,
                response,
                self.printed_text,
            ),
        }
    }

    /// The user asks to stop: the first time, the turn is to be cancelled.
    pub fn on_interrupt(&mut self) -> (r: bool)
        ensures
            r == !old(self).cancellation_sent,
            final(self).cancellation_sent,
            final(self).request_id == old(self).request_id,
            final(self).printed_text == old(self).printed_text,
    {
        let first = !self.cancellation_sent;
        self.cancellation_sent = true;
        first
    }
}

/// What is to be done for a frame of a turn that is taken up again. A question that was
/// answered before is not asked again.
pub open spec fn recovered_frame(
    request_id: RequestIdView,
    f: FrameView,
    printed: bool,
    handled: Seq<Seq<char>>,
) -> ChatView {
    match f {
        FrameView::Event(e) => match e.event {
            EventKind::ToolStarted => ChatView::Note(started_line(e.data, true)),
            EventKind::ToolFinished => ChatView::Note(finished_line(e.data, true)),
            EventKind::ApprovalRequired => match question_in(e.data) {
                Ok(q) => if handled.contains(q.0) {
                    ChatView::Nothing
                } else {
                    ChatView::Ask { approval_id: q.0, prompt: q.1 }
                },
                Err(m) => match json::str_of(
                    json::at_key(json::at_key(e.data, "approval"@), "id"@),
                ) {
                    Some(id) => if handled.contains(id) {
                        ChatView::Nothing
                    } else {
                        ChatView::Fail { end_line: false, message: m }
                    },
                    None => ChatView::Fail { end_line: false, message: m },
                },
            },
            _ => chat_event(e),
        },
        FrameView::Response(r) => match r.error {
            Some(e) => ChatView::Fail {
                end_line: printed,
                message: "恢复请求 "@ + frames::request_label(request_id) + " 失败（"@
                    + text::signed_decimal(e.code as int) + "）："@ + e.message,
            },
            None => ChatView::Done { end_line: printed, content: None, note: None },
        },
    }
}

/// A turn that is taken up again.
#[derive(Debug)]
pub struct RecoveredPrinter {
    pub request_id: RequestId,
    pub printed_text: bool,
    pub handled: Vec<String>,
}

/// The questions that were answered, after a frame.
pub open spec fn handled_after(handled: Seq<Seq<char>>, f: FrameView) -> Seq<Seq<char>> {
    match f {
        FrameView::Event(e) => match json::str_of(
            json::at_key(json::at_key(e.data, "approval"@), "id"@),
        ) {
            Some(id) => if e.event == EventKind::ApprovalRequired && !handled.contains(id) {
                handled.push(id)
            } else {
                handled
            },
            None => handled,
        },
        FrameView::Response(_) => handled,
    }
}

impl RecoveredPrinter {
    /// What is to be done for a frame.
    pub fn on_frame(&mut self, frame: &ServerFrame) -> (r: ChatStep)
        ensures
            r@ == recovered_frame(
                old(self).request_id@,
                frame@,
                old(self).printed_text,
                text::views(old(self).handled@),
            ),
            final(self).request_id == old(self).request_id,
            final(self).printed_text == printed_after(r@, old(self).printed_text),
            text::views(final(self).handled@) == handled_after(
                text::views(old(self).handled@),
                frame@,
            ),
    {
        match frame {
            ServerFrame::Event(event) => match event.event {
                EventKind::TextDelta => match event.data.str_at("delta") {
                    Some(delta) => {
                        self.printed_text = true;
                        ChatStep::Print(delta.to_owned())
                    },
                    None => ChatStep::Nothing,
                },
                EventKind::ToolStarted => ChatStep::Note(tell_started(&event.data, true)),
                EventKind::ToolFinished => ChatStep::Note(tell_finished(&event.data, true)),
                EventKind::ApprovalRequired => self.on_question(&event.data),
                _ => ChatStep::Nothing,
            },
            ServerFrame::Response(response) => match &response.error {
                Some(e) => {
                    let mut message = two(
                        "恢复请求 ",
                        frames::label_request(&self.request_id).as_str(),
                    );
                    message.append(" 失败（");
                    message.append(text::signed_decimal_text(e.code).as_str());
                    message.append("）：");
                    message.append(e.message.as_str());
                    ChatStep::Fail { end_line: self.printed_text, message }
                },
                None => ChatStep::Done { end_line: self.printed_text, content: None, note: None },
            },
        }
    }

    fn on_question(&mut self, data: &Json) -> (r: ChatStep)
        ensures
            ({
                let handled = text::views(old(self).handled@);
                let id = json::str_of(json::at_key(json::at_key(data@, "approval"@), "id"@));
                let known = id is Some && handled.contains(id->0);
                &&& r@ == (match question_in(data@) {
                    Ok(q) => if known {
                        ChatView::Nothing
                    } else {
                        ChatView::Ask { approval_id: q.0, prompt: q.1 }
                    },
                    Err(m) => if known {
                        ChatView::Nothing
                    } else {
                        ChatView::Fail { end_line: false, message: m }
                    },
                })
                &&& text::views(final(self).handled@) == if id is Some && !known {
                    handled.push(id->0)
                } else {
                    handled
                }
            }),
            final(self).request_id == old(self).request_id,
            final(self).printed_text == old(self).printed_text,
    {
        let approval = match data.get("approval") {
            Some(a) => a,
            None => {
                return ChatStep::Fail {
                    end_line: false,
                    message: "审批事件缺少 approval".to_owned(),
                };
            },
        };
        let id = match approval.str_at("id") {
            Some(s) => s.to_owned(),
            None => {
                return ChatStep::Fail {
                    end_line: false,
                    message: "审批事件缺少 id".to_owned(),
                };
            },
        };
        if text::contains_text(&self.handled, id.as_str()) {
            return ChatStep::Nothing;
        }
        let ghost before = text::views(self.handled@);
        self.handled.push(id);
        assert(text::views(self.handled@) =~= before.push(id@));
        match read_question(data) {
            Ok(q) => ChatStep::Ask(q),
            Err(message) => ChatStep::Fail { end_line: false, message },
        }
    }

    /// What is said when the daemon goes away.
    pub fn on_closed(&self) -> (r: String)
        ensures
            r@ == "恢复请求 "@ + frames::request_label(self.request_id@)
                + " 时 daemon 在终态前断开"@,
    {
        let mut r = two("恢复请求 ", frames::label_request(&self.request_id).as_str());
        r.append(" 时 daemon 在终态前断开");
        r
    }
}

/// No question is asked twice: one that was asked is among those that were answered, and one
/// that was answered is not asked.
pub proof fn law_no_question_is_asked_twice(
    request_id: RequestIdView,
    first: FrameView,
    second: FrameView,
    printed: bool,
    printed_later: bool,
    handled: Seq<Seq<char>>,
)
    requires
        recovered_frame(request_id, first, printed, handled) is Ask,
        recovered_frame(request_id, second, printed_later, handled_after(handled, first)) is Ask,
    ensures
        recovered_frame(request_id, first, printed, handled)->approval_id != recovered_frame(
            request_id,
            second,
            printed_later,
            handled_after(handled, first),
        )->approval_id,
{
    let id = recovered_frame(request_id, first, printed, handled)->approval_id;
    let after = handled_after(handled, first);
    assert(after[after.len() - 1] == id);
    assert(after.contains(id));
}

/// The result that a reply gives.
pub open spec fn result_in(r: ResponseView) -> Result<JsonView, Seq<char>> {
    match (r.error, r.result) {
        (Some(e), _) => Err(rpc_error_text(e.code, e.message)),
        (None, Some(j)) => Ok(j),
        (None, None) => Err("daemon 响应缺少 result"@),
    }
}

/// The text of the failure when the daemon goes away before it replies.
pub const REQUEST_CLOSED: &'static str = "daemon 在返回响应前断开";

/// The result that a frame gives: none while events come.
pub fn require_result(frame: ServerFrame) -> (r: Option<Result<Json, String>>)
    ensures
        match frame@ {
            FrameView::Event(_) => r is None,
            FrameView::Response(response) => match result_in(response) {
                Ok(j) => r matches Some(Ok(got)) && got@ == j,
                Err(e) => r matches Some(Err(got)) && got@ == e,
            },
        },
{
    match frame {
        ServerFrame::Event(_) => None,
        ServerFrame::Response(response) => {
            if let Some(e) = &response.error {
                return Some(Err(rpc_error(e.code, e.message.as_str())));
            }
            match response.result {
                Some(j) => Some(Ok(j)),
                None => Some(Err("daemon 响应缺少 result".to_owned())),
            }
        },
    }
}

/// What asks the daemon to stop a request.
pub open spec fn cancel_params(request_id: RequestIdView, session_id: Seq<char>) -> JsonView {
    JsonView::Object(
        seq![
            ("request_id"@, crate::daemon::protocol::id_json(request_id)),
            ("session_id"@, JsonView::Str(session_id)),
        ],
    )
}

/// What asks the daemon to stop a request.
pub fn cancel_request(request_id: &RequestId, session_id: &str) -> (r: Json)
    ensures
        r@ == cancel_params(request_id@, session_id@),
{
    let mut f = json::no_fields();
    json::put(&mut f, "request_id", crate::daemon::protocol::id_to_json(request_id));
    json::put(&mut f, "session_id", Json::of_str(session_id));
    assert(json::fields_view(f@) =~= cancel_params(request_id@, session_id@)->Object_0);
    json::object(f)
}

/// Whether a request was stopped, as the daemon tells: it was, unless the result says no.
pub fn cancel_outcome(result: &Json) -> (r: Result<(), String>)
    ensures
        match r {
            Ok(()) => json::bool_of(json::at_key(result@, "cancelled"@)) != Some(false),
            Err(e) => json::bool_of(json::at_key(result@, "cancelled"@)) == Some(false) && e@
                == "停止请求未生效："@ + frames::str_or(
                result@,
                "reason"@,
                "请求已结束或无法取消"@,
            ),
        },
{
    if let Some(cancelled) = result.bool_at("cancelled") {
        if !cancelled {
            return Err(
                two("停止请求未生效：", str_or(result, "reason", "请求已结束或无法取消")),
            );
        }
    }
    Ok(())
}

/// The line of a session in the list.
pub open spec fn session_line(s: SessionInfoView, number: nat) -> Seq<char> {
    (if s.active {
        "*"@
    } else {
        " "@
    }) + " "@ + text::decimal(number) + ". "@ + s.id + " · "@ + sessions::session_status_name(
        s.status,
    ) + " · "@ + text::decimal(s.active_requests) + " 个活动请求 · "@ + text::decimal(
        s.message_count as nat,
    ) + " 条消息 · "@ + (match s.preview {
        Some(p) => p,
        None => "无摘要"@,
    })
}

/// The lines of the list of sessions.
pub open spec fn session_lines(v: Seq<SessionInfoView>) -> Seq<Seq<char>> {
    if v.len() == 0 {
        seq!["暂无会话记录。"@]
    } else {
        Seq::new(v.len(), |i: int| session_line(v[i], (i + 1) as nat))
    }
}

fn make_session_line(s: &SessionInfo, number: u64) -> (r: String)
    ensures
        r@ == session_line(s@, number as nat),
{
    let marker = if s.active {
        "*"
    } else {
        " "
    };
    let mut r = two(marker, " ");
    r.append(text::decimal_text(number).as_str());
    r.append(". ");
    r.append(s.id.as_str());
    r.append(" · ");
    r.append(s.status.name());
    r.append(" · ");
    r.append(text::decimal_text(s.active_requests as u64).as_str());
    r.append(" 个活动请求 · ");
    r.append(text::decimal_text(s.message_count as u64).as_str());
    r.append(" 条消息 · ");
    match &s.preview {
        Some(p) => r.append(p.as_str()),
        None => r.append("无摘要"),
    }
    r
}

/// The lines of the list of sessions.
pub fn print_session_list(sessions: &Vec<SessionInfo>) -> (r: Vec<String>)
    ensures
        text::views(r@) == session_lines(sessions::session_views(sessions@)),
{
    let ghost all = sessions::session_views(sessions@);
    let ghost wanted = session_lines(all);
    let mut out: Vec<String> = Vec::new();
    if sessions.len() == 0 {
        out.push("暂无会话记录。".to_owned());
        assert(text::views(out@) =~= wanted);
        return out;
    }
    let mut i: usize = 0;
    assert(text::views(out@) =~= wanted.take(0));
    while i < sessions.len()
        invariant
            i <= sessions@.len(),
            all == sessions::session_views(sessions@),
            wanted == Seq::new(all.len(), |i: int| session_line(all[i], (i + 1) as nat)),
            text::views(out@) == wanted.take(i as int),
        decreases sessions@.len() - i,
    {
        let line = make_session_line(&sessions[i], (i + 1) as u64);
        let ghost before = text::views(out@);
        let ghost said = line@;
        out.push(line);
        assert(text::views(out@) =~= before.push(said));
        assert(said == wanted[i as int]);
        assert(wanted.take(i + 1) =~= wanted.take(i as int).push(wanted[i as int]));
        i = i + 1;
    }
    assert(wanted.take(i as int) =~= wanted);
    out
}

/// What is said of a message of the history, if anything.
pub open spec fn history_line(m: MessageView) -> Option<Seq<char>> {
    match (m.content, m.role) {
        (Some(c), Role::User) => Some("[你] "@ + c),
        (Some(c), Role::Assistant) => Some("[Agent] "@ + c),
        _ => None,
    }
}

/// The lines of the history.
pub open spec fn history_of(v: Seq<MessageView>) -> Seq<Seq<char>>
    decreases v.len(),
{
    if v.len() == 0 {
        Seq::empty()
    } else {
        match history_line(v.last()) {
            Some(line) => history_of(v.drop_last()).push(line),
            None => history_of(v.drop_last()),
        }
    }
}

/// The line above the history of a session that was taken up again, if it has any.
pub fn history_title(messages: &Vec<Message>) -> (r: Option<String>)
    ensures
        json::opt_text(r) == if messages@.len() == 0 {
            None
        } else {
            Some("已恢复 "@ + text::decimal(messages@.len()) + " 条历史消息："@)
        },
{
    if messages.len() == 0 {
        return None;
    }
    let mut r = two("已恢复 ", text::decimal_text(messages.len() as u64).as_str());
    r.append(" 条历史消息：");
    Some(r)
}

/// The line for the requests that are being worked on and are watched again, if there are any.
pub fn watched_title(watched: usize) -> (r: Option<String>)
    ensures
        json::opt_text(r) == if watched == 0 {
            None
        } else {
            Some("检测到 "@ + text::decimal(watched as nat) + " 个仍在执行的请求，正在恢复输出。"@)
        },
{
    if watched == 0 {
        return None;
    }
    let mut r = two("检测到 ", text::decimal_text(watched as u64).as_str());
    r.append(" 个仍在执行的请求，正在恢复输出。");
    Some(r)
}

/// The lines of the history.
pub fn history_lines(messages: &Vec<Message>) -> (r: Vec<String>)
    ensures
        text::views(r@) == history_of(provider::message_views(messages@)),
{
    let ghost all = provider::message_views(messages@);
    let mut out: Vec<String> = Vec::new();
    let mut i: usize = 0;
    assert(all.take(0) =~= Seq::<MessageView>::empty());
    assert(text::views(out@) =~= Seq::<Seq<char>>::empty());
    while i < messages.len()
        invariant
            i <= messages@.len(),
            all == provider::message_views(messages@),
            text::views(out@) == history_of(all.take(i as int)),
        decreases messages@.len() - i,
    {
        proof {
            assert(all.take(i + 1).drop_last() =~= all.take(i as int));
            assert(all.take(i + 1).last() == messages@[i as int]@);
        }
        if let Some(content) = &messages[i].content {
            let said = match messages[i].role {
                Role::User => Some(two("[你] ", content.as_str())),
                Role::Assistant => Some(two("[Agent] ", content.as_str())),
                _ => None,
            };
            if let Some(line) = said {
                let ghost before = text::views(out@);
                let ghost own = line@;
                out.push(line);
                assert(text::views(out@) =~= before.push(own));
            }
        }
        i = i + 1;
    }
    assert(all.take(i as int) =~= all);
    out
}

/// What is to be done with the answer to a command.
#[derive(Debug)]
pub enum SlashTurn {
    /// Write the lines, and go on reading.
    Print(Vec<String>),
    /// Leave.
    Exit,
    /// Write the lines, and ask which session is meant; then call `chosen_line`.
    Choose(Vec<String>),
    /// Write the message, take the session of the snapshot, and write its history.
    Change { message: String, snapshot: Json },
}

/// What is asked where a session is to be chosen.
pub const CHOOSE_PROMPT: &'static str = "请选择会话编号或输入 session ID：";

/// What is said where no session was chosen.
pub const NOTHING_CHOSEN: &'static str = "已取消恢复。";

/// What is to be done with the answer to a command.
pub fn slash_turn(response: SlashResponse) -> (r: SlashTurn)
    ensures
        match response {
            SlashResponse::Text { content } => r matches SlashTurn::Print(lines) && text::views(
                lines@,
            ) == seq![content@],
            SlashResponse::Exit => r is Exit,
            SlashResponse::Sessions { sessions, select } => {
                let all = sessions::session_views(sessions@);
                if !select || all.len() == 0 {
                    r matches SlashTurn::Print(lines) && text::views(lines@) == session_lines(all)
                } else {
                    r matches SlashTurn::Choose(lines) && text::views(lines@) == session_lines(all)
                }
            },
            SlashResponse::SessionChanged { message, snapshot } => r matches SlashTurn::Change {
                message: m,
                snapshot: s,
            } && m == message && s == snapshot,
        },
{
    match response {
        SlashResponse::Text { content } => {
            let mut lines: Vec<String> = Vec::new();
            let ghost said = content@;
            lines.push(content);
            assert(text::views(lines@) =~= seq![said]);
            SlashTurn::Print(lines)
        },
        SlashResponse::Exit => SlashTurn::Exit,
        SlashResponse::Sessions { sessions, select } => {
            let lines = print_session_list(&sessions);
            if !select || sessions.len() == 0 {
                SlashTurn::Print(lines)
            } else {
                SlashTurn::Choose(lines)
            }
        },
        SlashResponse::SessionChanged { message, snapshot } => SlashTurn::Change {
            message,
            snapshot,
        },
    }
}

/// The command for the session that was chosen: none where nothing was.
pub fn chosen_line(answer: &str) -> (r: Option<String>)
    ensures
        match r {
            Some(line) => text::trim(answer@).len() > 0 && line@ == "/resume "@ + text::trim(
                answer@,
            ),
            None => text::trim(answer@).len() == 0,
        },
{
    let answer = text::trim_text(answer);
    let chars = text::chars_of(answer.as_str());
    if chars.len() == 0 {
        None
    } else {
        Some(two("/resume ", answer.as_str()))
    }
}

/// What a line that was typed is.
#[derive(Debug)]
pub enum ReplLine {
    Empty,
    Command(String),
    Message(String),
}

/// What a line that was typed is.
pub fn read_repl_line(line: &str) -> (r: ReplLine)
    ensures
        ({
            let input = text::trim(line@);
            if input.len() == 0 {
                r is Empty
            } else if input[0] == '/' {
                r matches ReplLine::Command(s) && s@ == input
            } else {
                r matches ReplLine::Message(s) && s@ == input
            }
        }),
{
    let input = text::trim_text(line);
    let chars = text::chars_of(input.as_str());
    if chars.len() == 0 {
        ReplLine::Empty
    } else if chars[0] == '/' {
        ReplLine::Command(input)
    } else {
        ReplLine::Message(input)
    }
}

/// Reading back: what asks the daemon to stop a request, field by field.
pub proof fn law_cancel_params_reads_back(request_id: RequestIdView, session_id: Seq<char>)
    ensures
        json::at_key(cancel_params(request_id, session_id), "request_id"@)
            == crate::daemon::protocol::id_json(request_id),
        json::at_key(cancel_params(request_id, session_id), "session_id"@)
            == JsonView::Str(session_id),
{
    reveal_strlit("request_id");
    reveal_strlit("session_id");
    assert("request_id"@[0] != "session_id"@[0]);
    json::lemma_field_at(cancel_params(request_id, session_id), "request_id"@, 0);
    json::lemma_field_at(cancel_params(request_id, session_id), "session_id"@, 1);
}

/// A question is read with its own identifier and prompt, and only where both are there.
pub proof fn law_questions_are_read(data: JsonView)
    ensures
        question_in(data) matches Ok(q) ==> json::at_key(json::at_key(data, "approval"@), "id"@)
            == JsonView::Str(q.0) && json::at_key(json::at_key(data, "approval"@), "prompt"@)
            == JsonView::Str(q.1),
        json::at_key(json::at_key(data, "approval"@), "id"@) is Str && json::at_key(
            json::at_key(data, "approval"@),
            "prompt"@,
        ) is Str && json::field(data, "approval"@) is Some ==> question_in(data) is Ok,
{
}

/// Only yes allows, however it is written; anything else does not.
pub proof fn law_only_yes_allows(answer: Seq<char>)
    ensures
        allows(answer) <==> text::lower(text::trim(answer)) == "y"@ || text::lower(
            text::trim(answer),
        ) == "yes"@,
        text::blank(answer) ==> !allows(answer),
{
    reveal_strlit("y");
    reveal_strlit("yes");
    text::lemma_blank_trim(answer);
    assert("y"@.len() == 1 && "yes"@.len() == 3);
}

/// What a turn tells is printed as it comes: text as text, tools as notes, a question as that
/// question; nothing of a turn is an end.
pub proof fn law_events_are_printed(e: EventView)
    ensures
        e.event == EventKind::TextDelta ==> (json::at_key(e.data, "delta"@) matches JsonView::Str(d)
            ==> chat_event(e) == ChatView::Print(d)),
        chat_event(e) matches ChatView::Print(d) ==> e.event == EventKind::TextDelta
            && json::at_key(e.data, "delta"@) == JsonView::Str(d),
        e.event == EventKind::ToolStarted || e.event == EventKind::ToolFinished ==> chat_event(e)
            is Note,
        chat_event(e) matches ChatView::Ask { approval_id, prompt } ==> e.event
            == EventKind::ApprovalRequired && json::at_key(
            json::at_key(e.data, "approval"@),
            "id"@,
        ) == JsonView::Str(approval_id) && json::at_key(
            json::at_key(e.data, "approval"@),
            "prompt"@,
        ) == JsonView::Str(prompt),
        !(chat_event(e) is Done),
        e.event == EventKind::ThinkingDelta || e.event == EventKind::TurnStarted || e.event
            == EventKind::TurnCompleted || e.event == EventKind::ThinkingFinished ==> chat_event(e)
            is Nothing,
{
}

/// The reply ends the turn: an error with the error, a success with the content unless it was
/// printed piece by piece before.
pub proof fn law_replies_end_the_turn(request_id: RequestIdView, r: ResponseView, printed: bool)
    ensures
        r.error is Some ==> (chat_end(request_id, r, printed) matches ChatView::Fail {
            end_line,
            message,
        } && end_line == printed && r.error->0.message.is_suffix_of(message)),
        r.error is None ==> (chat_end(request_id, r, printed) matches ChatView::Done {
            end_line,
            content,
            note,
        } && end_line == printed && (printed ==> content is None) && (!printed && r.result is Some
            ==> content == json::str_of(json::at_key(r.result->0, "content"@)))),
        chat_frame(request_id, FrameView::Response(r), printed) == chat_end(
            request_id,
            r,
            printed,
        ),
{
    if let Some(e) = r.error {
        let t = rpc_error_text(e.code, e.message);
        assert(t.subrange(t.len() - e.message.len(), t.len() as int) =~= e.message);
    }
}

/// Once text was printed it stays so, and only text is text.
pub proof fn law_printing_is_remembered(step: ChatView, printed: bool)
    ensures
        printed ==> printed_after(step, printed),
        step is Print ==> printed_after(step, printed),
        !printed && !(step is Print) ==> !printed_after(step, printed),
{
}

/// The line of a tool tells its name; of a failed one also what went wrong. A tool that does
/// not say how it went is taken to have done well.
pub proof fn law_tool_lines(data: JsonView, again: bool)
    ensures
        json::at_key(data, "success"@) == JsonView::Bool(false) ==> !succeeded(data),
        !(json::at_key(data, "success"@) is Bool) ==> succeeded(data),
        json::at_key(data, "success"@) == JsonView::Bool(true) ==> succeeded(data),
        !succeeded(data) ==> tool_error(data).is_suffix_of(finished_line(data, again)),
        json::at_key(data, "error"@) matches JsonView::Str(e) ==> tool_error(data) == e,
        frames::str_or(data, "name"@, "unknown"@).is_suffix_of(started_line(data, again)),
{
    let s = started_line(data, again);
    let n = frames::str_or(data, "name"@, "unknown"@);
    assert(s.subrange(s.len() - n.len(), s.len() as int) =~= n);
    if !succeeded(data) {
        let f = finished_line(data, again);
        let e = tool_error(data);
        assert(f.subrange(f.len() - e.len(), f.len() as int) =~= e);
    }
}

/// A question counts as handled from then on, and only a question does.
pub proof fn law_handled_questions(handled: Seq<Seq<char>>, f: FrameView)
    ensures
        handled.is_prefix_of(handled_after(handled, f)),
        f matches FrameView::Event(e) ==> e.event == EventKind::ApprovalRequired ==> (json::at_key(
            json::at_key(e.data, "approval"@),
            "id"@,
        ) matches JsonView::Str(id) ==> handled_after(handled, f).contains(id)),
        f is Response ==> handled_after(handled, f) == handled,
        f matches FrameView::Event(e) ==> e.event != EventKind::ApprovalRequired ==> handled_after(
            handled,
            f,
        ) == handled,
        handled_after(handled, f).len() <= handled.len() + 1,
{
    let after = handled_after(handled, f);
    if after.len() > handled.len() {
        assert(after.last() == after[after.len() - 1]);
    }
}

/// What a request gave is its result; an error is told, and so is a reply without either.
pub proof fn law_results_of_replies(r: ResponseView)
    ensures
        result_in(r) is Ok <==> r.error is None && r.result is Some,
        result_in(r) matches Ok(j) ==> r.result == Some(j),
        r.error is Some ==> (result_in(r) matches Err(e) && r.error->0.message.is_suffix_of(e)),
{
    if let Some(e) = r.error {
        let t = rpc_error_text(e.code, e.message);
        assert(t.subrange(t.len() - e.message.len(), t.len() as int) =~= e.message);
    }
}

/// What is printed of a conversation is what the user and the agent said, each marked and in
/// order.
pub proof fn law_histories_are_printed_in_order(a: Seq<MessageView>, b: Seq<MessageView>, m: MessageView)
    ensures
        history_of(a + b) == history_of(a) + history_of(b),
        m.role is User && m.content is Some ==> history_of(seq![m]) == seq![
            "[你] "@ + m.content->0,
        ],
        m.role is Assistant && m.content is Some ==> history_of(seq![m]) == seq![
            "[Agent] "@ + m.content->0,
        ],
        m.role is Tool || m.role is System || m.content is None ==> history_of(seq![m]).len() == 0,
    decreases b.len(),
{
    assert(seq![m].drop_last() =~= Seq::<MessageView>::empty());
    reveal_with_fuel(history_of, 2);
    if m.role is User && m.content is Some {
        assert(history_of(seq![m]) =~= seq!["[你] "@ + m.content->0]);
    }
    if m.role is Assistant && m.content is Some {
        assert(history_of(seq![m]) =~= seq!["[Agent] "@ + m.content->0]);
    }
    if b.len() == 0 {
        assert(a + b =~= a);
    } else {
        law_histories_are_printed_in_order(a, b.drop_last(), m);
        assert((a + b).drop_last() =~= a + b.drop_last());
        assert((a + b).last() == b.last());
    }
    assert(history_of(a + b) =~= history_of(a) + history_of(b));
}

/// The line of a session marks the current one and tells its number and identifier; there is
/// one line for each session.
pub proof fn law_session_lines(v: Seq<SessionInfoView>, s: SessionInfoView, number: nat)
    ensures
        session_line(s, number)[0] == '*' <==> s.active,
        text::has_text(session_line(s, number), text::decimal(number) + ". "@ + s.id),
        s.preview is Some ==> s.preview->0.is_suffix_of(session_line(s, number)),
        v.len() > 0 ==> session_lines(v).len() == v.len(),
        v.len() == 0 ==> session_lines(v).len() == 1,
{
    reveal_strlit("*");
    reveal_strlit(" ");
    let l = session_line(s, number);
    let d = text::decimal(number) + ". "@ + s.id;
    assert(l[0] == if s.active {
        '*'
    } else {
        ' '
    });
    assert(l.subrange(2, 2 + d.len() as int) =~= d);
    assert(text::occurs_at(l, d, 2));
    if s.preview is Some {
        let p = s.preview->0;
        assert(l.subrange(l.len() - p.len(), l.len() as int) =~= p);
    }
}

/// A recovered request asks only what was not handled, prints what comes, and ends as its
/// reply says.
pub proof fn law_recovered_frames(
    request_id: RequestIdView,
    f: FrameView,
    printed: bool,
    handled: Seq<Seq<char>>,
)
    ensures
        recovered_frame(request_id, f, printed, handled) matches ChatView::Ask {
            approval_id,
            prompt,
        } ==> !handled.contains(approval_id) && (f matches FrameView::Event(e) && json::at_key(
            json::at_key(e.data, "approval"@),
            "id"@,
        ) == JsonView::Str(approval_id)),
        f matches FrameView::Event(e) ==> e.event == EventKind::TextDelta ==> recovered_frame(
            request_id,
            f,
            printed,
            handled,
        ) == chat_event(e),
        f matches FrameView::Response(r) ==> (recovered_frame(request_id, f, printed, handled)
            is Fail <==> r.error is Some),
        f matches FrameView::Response(r) ==> (recovered_frame(request_id, f, printed, handled)
            is Done <==> r.error is None),
{
}

/// A tool that begins is told with its round and its name, and with a mark of its own where it
/// is told again.
pub proof fn law_tools_told_again_are_marked(data: JsonView)
    ensures
        started_line(data, true) == "\n["@ + "恢复·"@ + started_line(data, false).skip(
            "\n["@.len() as int,
        ),
        text::has_text(
            started_line(data, false),
            text::decimal(frames::number_or_zero(data, "round"@) as nat),
        ),
{
    reveal_strlit("");
    let n = started_line(data, false);
    let d = text::decimal(frames::number_or_zero(data, "round"@) as nat);
    assert(started_line(data, true) =~= "\n["@ + "恢复·"@ + n.skip("\n["@.len() as int));
    let a: int = "\n["@.len() + "第 "@.len() as int;
    assert(n.subrange(a, a + d.len()) =~= d);
    assert(text::occurs_at(n, d, a));
}

} // verus!
