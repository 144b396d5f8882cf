//! The local web service: who may use it, and what it answers.
use vstd::prelude::*;

use crate::config;
use crate::config::{ConfigFile, ConfigStore, ConfigView, ProfileSummary};
use crate::daemon::approval;
use crate::daemon::approval::PendingApprovalInfo;
use crate::daemon::models;
use crate::daemon::params;
use crate::daemon::protocol;
use crate::daemon::protocol::{
    EventFrame, EventKind, EventView, FrameView, JsonRpcRequest, JsonRpcResponse, ProtocolError,
    RequestId, RequestIdView, RequestView, ResponseView, ServerFrame, MAX_FRAME_BYTES,
};
use crate::daemon::server::{PARSE_ERROR, TOO_LARGE};
use crate::daemon::sessions;
use crate::entry::cli;
use crate::entry::ids::IdMap;
use crate::entry::tui::frames;
use crate::json;
use crate::json::{Json, JsonView};
use crate::provider::{ProfileView, ProviderProfile};
use crate::text;

verus! {

fn two(a: &str, b: &str) -> (r: String)
    ensures
        r@ == a@ + b@,
{
    let mut r = a.to_owned();
    r.append(b);
    r
}

/// A token opens what is protected: any does where none is needed.
pub open spec fn opens(provided: Option<Seq<char>>, required: Option<Seq<char>>) -> bool {
    required is Some ==> provided == required
}

/// Tests whether a token opens what is protected.
pub fn token_matches(provided: Option<&str>, required: Option<&str>) -> (r: bool)
    ensures
        r == opens(json::opt_view(provided), json::opt_view(required)),
{
    match (provided, required) {
        (_, None) => true,
        (None, Some(_)) => false,
        (Some(p), Some(q)) => text::same(p, q),
    }
}

/// The token of an authorization header.
pub open spec fn bearer_token(header: Option<Seq<char>>) -> Option<Seq<char>> {
    match header {
        Some(h) => if text::has_prefix(h, "Bearer "@) {
            Some(h.skip("Bearer "@.len() as int))
        } else {
            None
        },
        None => None,
    }
}

/// A request may be served. `header` is its authorization header, where that is text.
pub fn is_authorized(header: Option<&str>, required_token: Option<&str>) -> (r: bool)
    ensures
        r == opens(bearer_token(json::opt_view(header)), json::opt_view(required_token)),
{
    if required_token.is_none() {
        return true;
    }
    let provided = match header {
        Some(h) => text::strip_prefix(h, "Bearer "),
        None => None,
    };
    match &provided {
        Some(p) => token_matches(Some(p.as_str()), required_token),
        None => token_matches(None, required_token),
    }
}

/// What stands before the first slash.
pub open spec fn before_slash(s: Seq<char>) -> Seq<char> {
    s.take(crate::entry::editor::part_end(s, 0))
}

/// The host of an origin.
pub open spec fn origin_host(origin: Seq<char>) -> Option<Seq<char>> {
    if text::has_prefix(origin, "http://"@) {
        Some(before_slash(origin.skip("http://"@.len() as int)))
    } else if text::has_prefix(origin, "https://"@) {
        Some(before_slash(origin.skip("https://"@.len() as int)))
    } else {
        None
    }
}

/// A page may open a socket: one of the same host, or a client that is no page.
pub open spec fn origin_allowed(origin: Option<Seq<char>>, host: Option<Seq<char>>) -> bool {
    match (origin, host) {
        (None, _) => true,
        (Some(_), None) => false,
        (Some(o), Some(h)) => origin_host(o) is Some && text::lower(origin_host(o)->0)
            == text::lower(h),
    }
}

fn cut_at_slash(s: &str) -> (r: String)
    ensures
        r@ == before_slash(s@),
{
    let v = text::chars_of(s);
    let mut n: usize = 0;
    while n < v.len() && v[n] != '/'
        invariant
            n <= v@.len(),
            crate::entry::editor::part_end(v@, 0) == crate::entry::editor::part_end(v@, n as int),
        decreases v@.len() - n,
    {
        n = n + 1;
    }
    assert(v@.subrange(0, n as int) =~= v@.take(n as int));
    text::string_of_range(v.as_slice(), 0, n)
}

/// Tests whether a page may open a socket.
pub fn websocket_origin_allowed(origin: Option<&str>, host: Option<&str>) -> (r: bool)
    ensures
        r == origin_allowed(json::opt_view(origin), json::opt_view(host)),
{
    let origin = match origin {
        None => return true,
        Some(o) => o,
    };
    let host = match host {
        None => return false,
        Some(h) => h,
    };
    let rest = match text::strip_prefix(origin, "http://") {
        Some(rest) => Some(rest),
        None => text::strip_prefix(origin, "https://"),
    };
    match rest {
        Some(rest) => {
            let own = text::lower_text(cut_at_slash(rest.as_str()).as_str());
            let wanted = text::lower_text(host);
            text::same(own.as_str(), wanted.as_str())
        },
        None => false,
    }
}

/// A page of another host opens no socket.
pub proof fn law_foreign_pages_are_refused(origin: Seq<char>, host: Option<Seq<char>>)
    requires
        origin_allowed(Some(origin), host),
    ensures
        host is Some,
        text::has_prefix(origin, "http://"@) || text::has_prefix(origin, "https://"@),
{
}

/// A message of a conversation.
#[derive(Debug)]
pub struct OpenAiMessage {
    pub role: String,
    pub content: Json,
}

/// What a message says.
pub struct OpenAiView {
    pub role: Seq<char>,
    pub content: JsonView,
}

impl View for OpenAiMessage {
    type V = OpenAiView;

    open spec fn view(&self) -> OpenAiView {
        OpenAiView { role: self.role@, content: self.content@ }
    }
}

/// What messages say.
pub open spec fn openai_views(v: Seq<OpenAiMessage>) -> Seq<OpenAiView> {
    Seq::new(v.len(), |i: int| v[i]@)
}

/// The texts among the parts of a message.
pub open spec fn text_parts(parts: Seq<JsonView>) -> Seq<Seq<char>>
    decreases parts.len(),
{
    if parts.len() == 0 {
        Seq::empty()
    } else {
        let rest = text_parts(parts.drop_last());
        let part = parts.last();
        match json::str_of(json::at_key(part, "text"@)) {
            Some(s) => if json::str_of(json::at_key(part, "type"@)) == Some("text"@) {
                rest.push(s)
            } else {
                rest
            },
            None => rest,
        }
    }
}

/// The text of a message.
pub open spec fn content_text(content: JsonView) -> Seq<char> {
    match content {
        JsonView::Str(s) => s,
        JsonView::Array(parts) => text::join(text_parts(parts), "\n"@),
        _ => Seq::empty(),
    }
}

/// The last text of the user that is not blank, among the first `n` messages.
pub open spec fn latest_prompt(v: Seq<OpenAiView>, n: int) -> Option<Seq<char>>
    decreases n,
{
    if n <= 0 {
        None
    } else if v[n - 1].role == "user"@ && !text::blank(content_text(v[n - 1].content)) {
        Some(content_text(v[n - 1].content))
    } else {
        latest_prompt(v, n - 1)
    }
}

fn read_text_parts(parts: &Vec<Json>) -> (r: Vec<String>)
    ensures
        text::views(r@) == text_parts(json::list_view(parts@)),
{
    let ghost all = json::list_view(parts@);
    let mut out: Vec<String> = Vec::new();
    let mut i: usize = 0;
    assert(all.take(0) =~= Seq::<JsonView>::empty());
    assert(text::views(out@) =~= Seq::<Seq<char>>::empty());
    while i < parts.len()
        invariant
            i <= parts@.len(),
            all == json::list_view(parts@),
            text::views(out@) == text_parts(all.take(i as int)),
        decreases parts@.len() - i,
    {
        proof {
            assert(all.take(i + 1).drop_last() =~= all.take(i as int));
            assert(all.take(i + 1).last() == parts@[i as int]@);
        }
        if let Some(s) = parts[i].str_at("text") {
            if let Some(kind) = parts[i].str_at("type") {
                if text::same(kind, "text") {
                    let ghost before = text::views(out@);
                    out.push(s.to_owned());
                    assert(text::views(out@) =~= before.push(s@));
                }
            }
        }
        i = i + 1;
    }
    assert(all.take(i as int) =~= all);
    out
}

fn read_content(content: &Json) -> (r: String)
    ensures
        r@ == content_text(content@),
{
    match content {
        Json::Str(s) => s.clone(),
        Json::Array(parts) => {
            proof {
                json::lemma_array_view(*parts);
            }
            text::join_texts(&read_text_parts(parts), "\n")
        },
        _ => String::new(),
    }
}

/// The last text of the user that is not blank.
pub fn extract_latest_user_prompt(messages: &Vec<OpenAiMessage>) -> (r: Option<String>)
    ensures
        json::opt_text(r) == latest_prompt(openai_views(messages@), messages@.len() as int),
{
    let ghost all = openai_views(messages@);
    let mut n: usize = messages.len();
    while n > 0
        invariant
            n <= messages@.len(),
            all == openai_views(messages@),
            latest_prompt(all, all.len() as int) == latest_prompt(all, n as int),
        decreases n,
    {
        assert(all[n - 1] == messages@[n - 1]@);
        if text::same(messages[n - 1].role.as_str(), "user") {
            let content = read_content(&messages[n - 1].content);
            if !text::is_blank(content.as_str()) {
                return Some(content);
            }
        }
        n = n - 1;
    }
    None
}

/// The status of an answer.
#[derive(Clone, Copy, Debug, PartialEq, Eq, Structural)]
pub enum Status {
    BadRequest,
    Unauthorized,
    Forbidden,
    Conflict,
    InternalServerError,
    BadGateway,
}

impl Status {
    /// The number of a status.
    pub fn code(self) -> (r: u16)
        ensures
            r == (match self {
                Status::BadRequest => 400u16,
                Status::Unauthorized => 401,
                Status::Forbidden => 403,
                Status::Conflict => 409,
                Status::InternalServerError => 500,
                Status::BadGateway => 502,
            }),
    {
        match self {
            Status::BadRequest => 400,
            Status::Unauthorized => 401,
            Status::Forbidden => 403,
            Status::Conflict => 409,
            Status::InternalServerError => 500,
            Status::BadGateway => 502,
        }
    }
}

/// What is said where a token is missing.
pub const TOKEN_ERROR: &'static str = "Bearer Token 无效或缺失";

/// What is said to a page of another host.
pub const ORIGIN_ERROR: &'static str = "WebSocket Origin 与当前服务不一致";

/// The body of an error.
pub open spec fn error_body(message: Seq<char>) -> JsonView {
    JsonView::Object(
        seq![
            (
                "error"@,
                JsonView::Object(
                    seq![
                        ("message"@, JsonView::Str(message)),
                        ("type"@, JsonView::Str("my_agent_error"@)),
                    ],
                ),
            ),
        ],
    )
}

/// The body of an error.
pub fn api_error(message: &str) -> (r: Json)
    ensures
        r@ == error_body(message@),
{
    let mut inner = json::no_fields();
    json::put(&mut inner, "message", Json::of_str(message));
    json::put(&mut inner, "type", Json::of_str("my_agent_error"));
    let inner = json::object(inner);
    let mut f = json::no_fields();
    json::put(&mut f, "error", inner);
    assert(inner@->Object_0 =~= error_body(message@)->Object_0[0].1->Object_0);
    assert(json::fields_view(f@) =~= error_body(message@)->Object_0);
    json::object(f)
}

/// What is done with a request for a completion: the text to send, or why it is refused.
pub open spec fn completion_check(
    authorized: bool,
    requested: Option<Seq<char>>,
    active: Seq<char>,
    messages: Seq<OpenAiView>,
) -> Result<Seq<char>, (Status, Seq<char>)> {
    if !authorized {
        Err((Status::Unauthorized, TOKEN_ERROR@))
    } else if requested is Some && requested->0 != active {
        Err(
            (
                Status::BadRequest,
                "当前 daemon 模型为 "@ + active + "，不支持请求模型 "@ + requested->0,
            ),
        )
    } else {
        match latest_prompt(messages, messages.len() as int) {
            Some(p) => Ok(p),
            None => Err((Status::BadRequest, "messages 中缺少非空 user 消息"@)),
        }
    }
}

/// Checks a request for a completion.
pub fn check_completion(
    authorized: bool,
    requested: Option<&str>,
    active: &str,
    messages: &Vec<OpenAiMessage>,
) -> (r: Result<String, (Status, String)>)
    ensures
        match r {
            Ok(p) => completion_check(
                authorized,
                json::opt_view(requested),
                active@,
                openai_views(messages@),
            ) == Ok::<Seq<char>, (Status, Seq<char>)>(p@),
            Err(e) => completion_check(
                authorized,
                json::opt_view(requested),
                active@,
                openai_views(messages@),
            ) == Err::<Seq<char>, (Status, Seq<char>)>((e.0, e.1@)),
        },
{
    if !authorized {
        return Err((Status::Unauthorized, TOKEN_ERROR.to_owned()));
    }
    if let Some(model) = requested {
        if !text::same(model, active) {
            let mut e = two("当前 daemon 模型为 ", active);
            e.append("，不支持请求模型 ");
            e.append(model);
            return Err((Status::BadRequest, e));
        }
    }
    match extract_latest_user_prompt(messages) {
        Some(p) => Ok(p),
        None => Err((Status::BadRequest, "messages 中缺少非空 user 消息".to_owned())),
    }
}

/// The identifier of a request as text.
pub open spec fn id_text(id: RequestIdView) -> Seq<char> {
    match id {
        RequestIdView::Number(n) => text::decimal(n as nat),
        RequestIdView::Text(s) => s,
    }
}

/// The identifier of a request as text.
pub fn request_id_text(id: &RequestId) -> (r: String)
    ensures
        r@ == id_text(id@),
{
    match id {
        RequestId::Number(n) => text::decimal_text(*n),
        RequestId::String(s) => s.clone(),
    }
}

/// The identifier of a completion.
pub fn completion_id(id: &RequestId) -> (r: String)
    ensures
        r@ == "chatcmpl-"@ + id_text(id@),
{
    two("chatcmpl-", request_id_text(id).as_str())
}

/// A piece of a completion.
pub open spec fn chunk_json(
    id: Seq<char>,
    created: u64,
    model: Seq<char>,
    delta: JsonView,
    finish_reason: JsonView,
) -> JsonView {
    JsonView::Object(
        seq![
            ("id"@, JsonView::Str(id)),
            ("object"@, JsonView::Str("chat.completion.chunk"@)),
            ("created"@, JsonView::Int(created as int)),
            ("model"@, JsonView::Str(model)),
            (
                "choices"@,
                JsonView::Array(
                    seq![
                        JsonView::Object(
                            seq![
                                ("index"@, JsonView::Int(0)),
                                ("delta"@, delta),
                                ("finish_reason"@, finish_reason),
                            ],
                        ),
                    ],
                ),
            ),
        ],
    )
}

fn single(item: Json) -> (r: Json)
    ensures
        r@ == JsonView::Array(seq![item@]),
{
    let mut items: Vec<Json> = Vec::new();
    let ghost said = item@;
    items.push(item);
    assert(json::list_view(items@) =~= seq![said]);
    json::array(items)
}

/// A piece of a completion.
pub fn completion_chunk(id: &str, created: u64, model: &str, delta: Json, finish_reason: Json) -> (r:
    Json)
    ensures
        r@ == chunk_json(id@, created, model@, delta@, finish_reason@),
{
    let ghost wanted = chunk_json(id@, created, model@, delta@, finish_reason@)->Object_0;
    let mut choice = json::no_fields();
    json::put(&mut choice, "index", Json::Unsigned(0));
    json::put(&mut choice, "delta", delta);
    json::put(&mut choice, "finish_reason", finish_reason);
    assert(json::fields_view(choice@) =~= wanted[4].1->Array_0[0]->Object_0);
    let choice = json::object(choice);
    let mut f = json::no_fields();
    json::put(&mut f, "id", Json::of_str(id));
    json::put(&mut f, "object", Json::of_str("chat.completion.chunk"));
    json::put(&mut f, "created", Json::Unsigned(created));
    json::put(&mut f, "model", Json::of_str(model));
    json::put(&mut f, "choices", single(choice));
    assert(json::fields_view(f@) =~= wanted);
    json::object(f)
}

/// A whole completion.
pub open spec fn completion_json(
    id: Seq<char>,
    created: u64,
    model: Seq<char>,
    content: Seq<char>,
) -> JsonView {
    JsonView::Object(
        seq![
            ("id"@, JsonView::Str(id)),
            ("object"@, JsonView::Str("chat.completion"@)),
            ("created"@, JsonView::Int(created as int)),
            ("model"@, JsonView::Str(model)),
            (
                "choices"@,
                JsonView::Array(
                    seq![
                        JsonView::Object(
                            seq![
                                ("index"@, JsonView::Int(0)),
                                (
                                    "message"@,
                                    JsonView::Object(
                                        seq![
                                            ("role"@, JsonView::Str("assistant"@)),
                                            ("content"@, JsonView::Str(content)),
                                        ],
                                    ),
                                ),
                                ("finish_reason"@, JsonView::Str("stop"@)),
                            ],
                        ),
                    ],
                ),
            ),
        ],
    )
}

/// A whole completion.
pub fn completion(id: &str, created: u64, model: &str, content: &str) -> (r: Json)
    ensures
        r@ == completion_json(id@, created, model@, content@),
        json::at_key(r@, "id"@) == JsonView::Str(id@),
        json::at_key(r@, "created"@) == JsonView::Int(created as int),
        json::at_key(r@, "model"@) == JsonView::Str(model@),
        json::at_key(r@, "choices"@) is Array,
        json::at_key(r@, "choices"@)->Array_0.len() == 1,
        json::at_key(
            json::at_key(json::at_key(r@, "choices"@)->Array_0[0], "message"@),
            "role"@,
        ) == JsonView::Str("assistant"@),
        json::at_key(
            json::at_key(json::at_key(r@, "choices"@)->Array_0[0], "message"@),
            "content"@,
        ) == JsonView::Str(content@),
{
    proof {
        law_completion_reads_back(id@, created, model@, content@);
    }
    let ghost wanted = completion_json(id@, created, model@, content@)->Object_0;
    let ghost wanted_choice = wanted[4].1->Array_0[0]->Object_0;
    let mut message = json::no_fields();
    json::put(&mut message, "role", Json::of_str("assistant"));
    json::put(&mut message, "content", Json::of_str(content));
    assert(json::fields_view(message@) =~= wanted_choice[1].1->Object_0);
    let mut choice = json::no_fields();
    json::put(&mut choice, "index", Json::Unsigned(0));
    json::put(&mut choice, "message", json::object(message));
    json::put(&mut choice, "finish_reason", Json::of_str("stop"));
    assert(json::fields_view(choice@) =~= wanted_choice);
    let choice = json::object(choice);
    let mut f = json::no_fields();
    json::put(&mut f, "id", Json::of_str(id));
    json::put(&mut f, "object", Json::of_str("chat.completion"));
    json::put(&mut f, "created", Json::Unsigned(created));
    json::put(&mut f, "model", Json::of_str(model));
    json::put(&mut f, "choices", single(choice));
    assert(json::fields_view(f@) =~= wanted);
    json::object(f)
}

/// The question of an event, which nobody can be asked.
pub open spec fn unasked(data: JsonView) -> Option<Seq<char>> {
    json::str_of(json::at_key(json::at_key(data, "approval"@), "id"@))
}

/// What is said where an event has no question.
pub const NO_QUESTION_ID: &'static str = "审批事件缺少 id";

/// The question that is to be answered with no.
pub fn deny_approval(data: &Json) -> (r: Result<String, String>)
    ensures
        match unasked(data@) {
            Some(id) => r is Ok && r->Ok_0@ == id,
            None => r is Err && r->Err_0@ == NO_QUESTION_ID@,
        },
{
    let id = match data.get("approval") {
        Some(a) => a.str_at("id"),
        None => None,
    };
    match id {
        Some(id) => Ok(id.to_owned()),
        None => Err(NO_QUESTION_ID.to_owned()),
    }
}

/// What is said where a question could not be answered with no.
pub fn deny_failed(error: &str) -> (r: String)
    ensures
        r@ == "自动拒绝 HTTP 审批失败: "@ + error@,
{
    two("自动拒绝 HTTP 审批失败: ", error)
}

/// What is to be done for a frame, where a whole answer is wanted.
#[derive(Debug)]
pub enum AnswerStep {
    Nothing,
    /// Answer the question with no; where that fails, the answer has failed.
    Deny(String),
    Done(Result<String, String>),
}

/// What is to be done for a frame, where a whole answer is wanted.
pub enum AnswerView {
    Nothing,
    Deny(Seq<char>),
    Answer(Seq<char>),
    Failure(Seq<char>),
}

impl View for AnswerStep {
    type V = AnswerView;

    open spec fn view(&self) -> AnswerView {
        match *self {
            AnswerStep::Nothing => AnswerView::Nothing,
            AnswerStep::Deny(id) => AnswerView::Deny(id@),
            AnswerStep::Done(Ok(s)) => AnswerView::Answer(s@),
            AnswerStep::Done(Err(e)) => AnswerView::Failure(e@),
        }
    }
}

/// What is to be done for a frame, where a whole answer is wanted.
pub open spec fn answer_frame(f: FrameView) -> AnswerView {
    match f {
        FrameView::Event(e) => if e.event == EventKind::ApprovalRequired {
            match unasked(e.data) {
                Some(id) => AnswerView::Deny(id),
                None => AnswerView::Failure(NO_QUESTION_ID@),
            }
        } else {
            AnswerView::Nothing
        },
        FrameView::Response(r) => match (r.error, r.result) {
            (Some(e), _) => AnswerView::Failure(cli::rpc_error_text(e.code, e.message)),
            (None, Some(result)) => match json::str_of(json::at_key(result, "content"@)) {
                Some(s) => AnswerView::Answer(s),
                None => AnswerView::Failure("daemon 响应缺少 content"@),
            },
            (None, None) => AnswerView::Failure("daemon 响应缺少 content"@),
        },
    }
}

/// The text of the failure when the daemon goes away.
pub const ANSWER_CLOSED: &'static str = "daemon 在终态响应前断开";

/// What is to be done for a frame, where a whole answer is wanted.
pub fn collect_answer(frame: &ServerFrame) -> (r: AnswerStep)
    ensures
        r@ == answer_frame(frame@),
{
    match frame {
        ServerFrame::Event(event) => {
            if event.event == EventKind::ApprovalRequired {
                match deny_approval(&event.data) {
                    Ok(id) => AnswerStep::Deny(id),
                    Err(e) => AnswerStep::Done(Err(e)),
                }
            } else {
                AnswerStep::Nothing
            }
        },
        ServerFrame::Response(response) => {
            if let Some(e) = &response.error {
                return AnswerStep::Done(Err(cli::rpc_error(e.code, e.message.as_str())));
            }
            let content = match &response.result {
                Some(result) => result.str_at("content"),
                None => None,
            };
            match content {
                Some(s) => AnswerStep::Done(Ok(s.to_owned())),
                None => AnswerStep::Done(Err("daemon 响应缺少 content".to_owned())),
            }
        },
    }
}

/// A completion that is streamed.
#[derive(Debug)]
pub struct CompletionStream {
    pub model: String,
    pub completion_id: String,
    pub created: u64,
    pub done_pending: bool,
    pub finished: bool,
}

/// What comes next in a completion.
#[derive(Clone, Copy, Debug, PartialEq, Eq, Structural)]
pub enum StreamTurn {
    /// Nothing more.
    End,
    /// The mark of the end.
    Mark,
    /// What the next frame gives.
    Frame,
}

/// The mark of the end of a completion.
pub const DONE_MARK: &'static str = "[DONE]";

/// What is to be done for a frame of a completion.
#[derive(Debug)]
pub enum StreamStep {
    /// Wait for the next frame.
    Nothing,
    /// Answer the question with no; where that fails, call `on_failure`.
    Deny(String),
    /// Send the data.
    Send(String),
}

/// What is to be done for a frame of a completion.
pub enum StreamView {
    Nothing,
    Deny(Seq<char>),
    Send(Seq<char>),
}

impl View for StreamStep {
    type V = StreamView;

    open spec fn view(&self) -> StreamView {
        match *self {
            StreamStep::Nothing => StreamView::Nothing,
            StreamStep::Deny(id) => StreamView::Deny(id@),
            StreamStep::Send(s) => StreamView::Send(s@),
        }
    }
}

/// The document of a failure within a completion.
pub open spec fn failure_json(message: Seq<char>) -> JsonView {
    JsonView::Object(
        seq![("error"@, JsonView::Object(seq![("message"@, JsonView::Str(message))]))],
    )
}

/// The document of an error of the daemon within a completion.
pub open spec fn coded_json(code: i64, message: Seq<char>) -> JsonView {
    JsonView::Object(
        seq![
            (
                "error"@,
                JsonView::Object(
                    seq![("code"@, JsonView::Int(code as int)), ("message"@, JsonView::Str(message))],
                ),
            ),
        ],
    )
}

fn make_failure(message: &str) -> (r: Json)
    ensures
        r@ == failure_json(message@),
{
    let ghost wanted = failure_json(message@)->Object_0;
    let mut inner = json::no_fields();
    json::put(&mut inner, "message", Json::of_str(message));
    assert(json::fields_view(inner@) =~= wanted[0].1->Object_0);
    let mut f = json::no_fields();
    json::put(&mut f, "error", json::object(inner));
    assert(json::fields_view(f@) =~= wanted);
    json::object(f)
}

fn make_coded(code: i64, message: &str) -> (r: Json)
    ensures
        r@ == coded_json(code, message@),
{
    let ghost wanted = coded_json(code, message@)->Object_0;
    let mut inner = json::no_fields();
    json::put(&mut inner, "code", Json::Negative(code));
    json::put(&mut inner, "message", Json::of_str(message));
    assert(json::fields_view(inner@) =~= wanted[0].1->Object_0);
    let mut f = json::no_fields();
    json::put(&mut f, "error", json::object(inner));
    assert(json::fields_view(f@) =~= wanted);
    json::object(f)
}

/// The delta of a completion.
pub open spec fn delta_json(delta: Seq<char>) -> JsonView {
    JsonView::Object(seq![("content"@, JsonView::Str(delta))])
}

/// What a completion is.
pub struct CompletionView {
    pub model: Seq<char>,
    pub completion_id: Seq<char>,
    pub created: u64,
    pub done_pending: bool,
    pub finished: bool,
}

impl View for CompletionStream {
    type V = CompletionView;

    open spec fn view(&self) -> CompletionView {
        CompletionView {
            model: self.model@,
            completion_id: self.completion_id@,
            created: self.created,
            done_pending: self.done_pending,
            finished: self.finished,
        }
    }
}

/// What comes next in a completion, and the completion then.
pub open spec fn turn_of(c: CompletionView) -> (StreamTurn, CompletionView) {
    if c.finished {
        (StreamTurn::End, c)
    } else if c.done_pending {
        (StreamTurn::Mark, CompletionView { finished: true, ..c })
    } else {
        (StreamTurn::Frame, c)
    }
}

/// What is to be done for a frame of a completion, and the completion then.
pub open spec fn stream_frame(c: CompletionView, f: FrameView) -> (StreamView, CompletionView) {
    let ended = CompletionView { done_pending: true, ..c };
    match f {
        FrameView::Event(e) => if e.event == EventKind::TextDelta {
            (
                StreamView::Send(
                    json::json_text_of(
                        chunk_json(
                            c.completion_id,
                            c.created,
                            c.model,
                            delta_json(frames::str_or(e.data, "delta"@, ""@)),
                            JsonView::Null,
                        ),
                    ),
                ),
                c,
            )
        } else if e.event == EventKind::ApprovalRequired {
            match unasked(e.data) {
                Some(id) => (StreamView::Deny(id), c),
                None => (
                    StreamView::Send(json::json_text_of(failure_json(NO_QUESTION_ID@))),
                    ended,
                ),
            }
        } else {
            (StreamView::Nothing, c)
        },
        FrameView::Response(r) => (
            StreamView::Send(
                json::json_text_of(
                    match r.error {
                        Some(e) => coded_json(e.code, e.message),
                        None => chunk_json(
                            c.completion_id,
                            c.created,
                            c.model,
                            JsonView::Object(Seq::empty()),
                            JsonView::Str("stop"@),
                        ),
                    },
                ),
            ),
            ended,
        ),
    }
}

impl CompletionStream {
    /// A completion of which nothing was sent yet.
    pub fn new(model: String, completion_id: String, created: u64) -> (r: Self)
        ensures
            r@ == (CompletionView {
                model: model@,
                completion_id: completion_id@,
                created,
                done_pending: false,
                finished: false,
            }),
    {
        CompletionStream { model, completion_id, created, done_pending: false, finished: false }
    }

    /// What comes next.
    pub fn next(&mut self) -> (r: StreamTurn)
        ensures
            (r, final(self)@) == turn_of(old(self)@),
    {
        if self.finished {
            StreamTurn::End
        } else if self.done_pending {
            self.finished = true;
            StreamTurn::Mark
        } else {
            StreamTurn::Frame
        }
    }

    fn chunk(&self, delta: Json, finish_reason: Json) -> (r: String)
        ensures
            r@ == json::json_text_of(
                chunk_json(self@.completion_id, self@.created, self@.model, delta@, finish_reason@),
            ),
    {
        let chunk = completion_chunk(
            self.completion_id.as_str(),
            self.created,
            self.model.as_str(),
            delta,
            finish_reason,
        );
        json::json_text(&chunk)
    }

    /// What is to be done for a frame.
    pub fn on_frame(&mut self, frame: &ServerFrame) -> (r: StreamStep)
        ensures
            (r@, final(self)@) == stream_frame(old(self)@, frame@),
    {
        match frame {
            ServerFrame::Event(event) => {
                if event.event == EventKind::TextDelta {
                    let delta = match event.data.str_at("delta") {
                        Some(s) => s,
                        None => "",
                    };
                    let mut f = json::no_fields();
                    json::put(&mut f, "content", Json::of_str(delta));
                    assert(json::fields_view(f@) =~= delta_json(delta@)->Object_0);
                    StreamStep::Send(self.chunk(json::object(f), Json::Null))
                } else if event.event == EventKind::ApprovalRequired {
                    match deny_approval(&event.data) {
                        Ok(id) => StreamStep::Deny(id),
                        Err(e) => StreamStep::Send(self.on_failure(e.as_str())),
                    }
                } else {
                    StreamStep::Nothing
                }
            },
            ServerFrame::Response(response) => {
                let said = match &response.error {
                    Some(e) => json::json_text(&make_coded(e.code, e.message.as_str())),
                    None => {
                        let f = json::no_fields();
                        self.chunk(json::object(f), Json::of_str("stop"))
                    },
                };
                self.done_pending = true;
                StreamStep::Send(said)
            },
        }
    }

    /// What is sent where something fails: the completion then ends.
    pub fn on_failure(&mut self, message: &str) -> (r: String)
        ensures
            r@ == json::json_text_of(failure_json(message@)),
            final(self)@ == (CompletionView { done_pending: true, ..old(self)@ }),
    {
        self.done_pending = true;
        json::json_text(&make_failure(message))
    }
}

/// A reply ends a completion: what comes next is the mark of the end, and then nothing more.
pub proof fn law_reply_ends_the_completion(c: CompletionView, r: ResponseView)
    requires
        !c.finished,
    ensures
        ({
            let after = stream_frame(c, FrameView::Response(r)).1;
            let (first, then) = turn_of(after);
            &&& first == StreamTurn::Mark
            &&& turn_of(then).0 == StreamTurn::End
        }),
{
}

/// No question is left open: one that comes within a completion is answered with no, or the
/// completion fails.
pub proof fn law_questions_are_denied(c: CompletionView, e: EventView)
    requires
        e.event == EventKind::ApprovalRequired,
    ensures
        stream_frame(c, FrameView::Event(e)).0 is Deny || stream_frame(
            c,
            FrameView::Event(e),
        ).1.done_pending,
        answer_frame(FrameView::Event(e)) is Deny || answer_frame(FrameView::Event(e)) is Failure,
{
}

/// A frame under the name that its request has outside.
pub open spec fn renamed(f: FrameView, id: RequestIdView) -> FrameView {
    match f {
        FrameView::Event(e) => FrameView::Event(EventView { request_id: id, ..e }),
        FrameView::Response(r) => FrameView::Response(ResponseView { id, ..r }),
    }
}

/// Gives a frame the name that its request has outside.
pub fn remap_frame_id(frame: ServerFrame, external_id: &RequestId) -> (r: ServerFrame)
    ensures
        r@ == renamed(frame@, external_id@),
{
    match frame {
        ServerFrame::Event(event) => {
            let mut event = event;
            event.request_id = external_id.clone();
            ServerFrame::Event(event)
        },
        ServerFrame::Response(response) => {
            let mut response = response;
            response.id = external_id.clone();
            ServerFrame::Response(response)
        },
    }
}

/// The code of an error of the service.
pub const SERVICE_ERROR: i64 = -32000;

/// The text of a frame on a socket. One that is too large is replaced by an error.
pub open spec fn socket_text(f: FrameView) -> Seq<char> {
    if protocol::wire_bytes(protocol::frame_json(f)).len() <= MAX_FRAME_BYTES {
        json::json_text_of(protocol::frame_json(f))
    } else {
        json::json_text_of(
            protocol::frame_json(
                FrameView::Response(
                    protocol::failure_view(
                        protocol::frame_id(f),
                        TOO_LARGE,
                        "WebSocket 响应超过帧大小限制"@,
                    ),
                ),
            ),
        )
    }
}

/// The text of a frame on a socket.
pub fn ws_server_frame(frame: &ServerFrame) -> (r: String)
    ensures
        r@ == socket_text(frame@),
{
    let message = json::json_text(&protocol::frame_to_json(frame));
    if message.as_str().as_bytes().len() <= MAX_FRAME_BYTES {
        return message;
    }
    let id = protocol::server_frame_request_id(frame).clone();
    let error = ServerFrame::Response(
        JsonRpcResponse::failure(id, TOO_LARGE, "WebSocket 响应超过帧大小限制"),
    );
    json::json_text(&protocol::frame_to_json(&error))
}

/// The first thing that comes over a socket.
#[derive(Debug)]
pub enum FirstFrame {
    Text(String),
    /// Something else than text.
    Other,
    /// Nothing, because the socket was closed or failed.
    Gone,
}

/// What is done with the first frame.
#[derive(Debug)]
pub enum ConnectStep {
    /// Say nothing, and go.
    Leave,
    /// Say why, and close.
    Refuse(String),
    /// Take up the work in the place that is asked for.
    Connect { workspace: Option<String> },
}

/// What is done with the first frame.
pub enum ConnectView {
    Leave,
    Refuse(Seq<char>),
    Connect { workspace: Option<Seq<char>> },
}

impl View for ConnectStep {
    type V = ConnectView;

    open spec fn view(&self) -> ConnectView {
        match *self {
            ConnectStep::Leave => ConnectView::Leave,
            ConnectStep::Refuse(s) => ConnectView::Refuse(s@),
            ConnectStep::Connect { workspace } => ConnectView::Connect {
                workspace: json::opt_text(workspace),
            },
        }
    }
}

/// What a document says of a connection: its kind, its token and its place, by their names or
/// in this order.
pub open spec fn connect_of(j: JsonView) -> Option<
    (Seq<char>, Option<Seq<char>>, Option<Seq<char>>),
> {
    let j = params::named(j, seq!["type"@, "token"@, "workspace"@], 1);
    match (
        params::need_str(j, "type"@),
        params::may_str(j, "token"@),
        params::may_str(j, "workspace"@),
    ) {
        (Some(kind), Some(token), Some(workspace)) => Some((kind, token, workspace)),
        _ => None,
    }
}

/// What is done with a first frame that is text, once it was read.
pub open spec fn connect_outcome(
    parsed: Result<JsonView, Seq<char>>,
    required: Option<Seq<char>>,
) -> ConnectView {
    match parsed {
        Err(_) => ConnectView::Refuse("第一帧必须是合法 connect 帧"@),
        Ok(j) => match connect_of(j) {
            Some(c) => if c.0 != "connect"@ {
                ConnectView::Refuse("第一帧必须是合法 connect 帧"@)
            } else if !opens(c.1, required) {
                ConnectView::Refuse("Token 无效或缺失"@)
            } else {
                ConnectView::Connect { workspace: c.2 }
            },
            None => ConnectView::Refuse("第一帧必须是合法 connect 帧"@),
        },
    }
}

/// The view of what was read.
pub open spec fn parsed_view(p: Result<Json, String>) -> Result<JsonView, Seq<char>> {
    match p {
        Ok(j) => Ok(j@),
        Err(e) => Err(e@),
    }
}

/// What is done with a first frame that is text, once it was read.
pub fn judge_connect(parsed: Result<Json, String>, required: Option<&str>) -> (r: ConnectStep)
    ensures
        r@ == connect_outcome(parsed_view(parsed), json::opt_view(required)),
{
    let bad = "第一帧必须是合法 connect 帧";
    let document = match parsed {
        Ok(j) => j,
        Err(_) => return ConnectStep::Refuse(bad.to_owned()),
    };
    let names: [&'static str; 3] = ["type", "token", "workspace"];
    let document = params::arrange(&document, &names, 1);
    assert(params::name_views(names@) =~= seq!["type"@, "token"@, "workspace"@]);
    let kind = params::read_str(&document, "type");
    let token = params::read_opt_str(&document, "token");
    let workspace = params::read_opt_str(&document, "workspace");
    match (kind, token, workspace) {
        (Some(kind), Some(token), Some(workspace)) => {
            if !text::same(kind.as_str(), "connect") {
                return ConnectStep::Refuse(bad.to_owned());
            }
            let open = match &token {
                Some(t) => token_matches(Some(t.as_str()), required),
                None => token_matches(None, required),
            };
            if open {
                ConnectStep::Connect { workspace }
            } else {
                ConnectStep::Refuse("Token 无效或缺失".to_owned())
            }
        },
        _ => ConnectStep::Refuse(bad.to_owned()),
    }
}

/// What is done with the first frame.
pub open spec fn first_frame(f: FirstFrame, required: Option<Seq<char>>) -> ConnectView {
    match f {
        FirstFrame::Gone => ConnectView::Leave,
        FirstFrame::Other => ConnectView::Refuse("第一帧必须是文本 connect 帧"@),
        FirstFrame::Text(s) => {
            let bytes = vstd::utf8::encode_utf8(s@);
            if bytes.len() > MAX_FRAME_BYTES {
                ConnectView::Refuse("第一帧必须是文本 connect 帧"@)
            } else {
                connect_outcome(json::json_parse_of(bytes), required)
            }
        },
    }
}

/// What is done with the first frame.
pub fn connect(frame: FirstFrame, required: Option<&str>) -> (r: ConnectStep)
    ensures
        r@ == first_frame(frame, json::opt_view(required)),
{
    match frame {
        FirstFrame::Gone => ConnectStep::Leave,
        FirstFrame::Other => ConnectStep::Refuse("第一帧必须是文本 connect 帧".to_owned()),
        FirstFrame::Text(s) => {
            let bytes = s.as_str().as_bytes();
            if bytes.len() > MAX_FRAME_BYTES {
                return ConnectStep::Refuse("第一帧必须是文本 connect 帧".to_owned());
            }
            judge_connect(json::parse_json(bytes), required)
        },
    }
}

/// Nobody is let in without the token that is needed.
pub proof fn law_socket_needs_the_token(
    parsed: Result<JsonView, Seq<char>>,
    required: Seq<char>,
)
    requires
        connect_outcome(parsed, Some(required)) is Connect,
    ensures
        parsed is Ok,
        connect_of(parsed->Ok_0) is Some,
        connect_of(parsed->Ok_0)->Some_0.1 == Some(required),
{
}

/// What is told where a socket is taken up.
pub open spec fn connected_json(workspace: Seq<char>) -> JsonView {
    JsonView::Object(
        seq![
            ("type"@, JsonView::Str("connected"@)),
            ("protocol"@, JsonView::Str("my-agent-jsonrpc"@)),
            ("version"@, JsonView::Int(1)),
            ("workspace"@, JsonView::Str(workspace)),
        ],
    )
}

/// What is told where a socket is taken up.
pub fn connected(workspace: &str) -> (r: String)
    ensures
        r@ == json::json_text_of(connected_json(workspace@)),
{
    let mut f = json::no_fields();
    json::put(&mut f, "type", Json::of_str("connected"));
    json::put(&mut f, "protocol", Json::of_str("my-agent-jsonrpc"));
    json::put(&mut f, "version", Json::Unsigned(1));
    json::put(&mut f, "workspace", Json::of_str(workspace));
    assert(json::fields_view(f@) =~= connected_json(workspace@)->Object_0);
    json::json_text(&json::object(f))
}

/// What is told where a socket is refused, or where the work could not be taken up again.
pub open spec fn told_error(kind: Seq<char>, message: Seq<char>) -> JsonView {
    JsonView::Object(seq![("type"@, JsonView::Str(kind)), ("error"@, JsonView::Str(message))])
}

fn tell_error(kind: &str, message: &str) -> (r: String)
    ensures
        r@ == json::json_text_of(told_error(kind@, message@)),
{
    let mut f = json::no_fields();
    json::put(&mut f, "type", Json::of_str(kind));
    json::put(&mut f, "error", Json::of_str(message));
    assert(json::fields_view(f@) =~= told_error(kind@, message@)->Object_0);
    json::json_text(&json::object(f))
}

/// What is told where a socket is refused.
pub fn control_error(message: &str) -> (r: String)
    ensures
        r@ == json::json_text_of(told_error("error"@, message@)),
{
    tell_error("error", message)
}

/// What is told where the work could not be taken up again.
pub fn recovery_error(message: &str) -> (r: String)
    ensures
        r@ == json::json_text_of(told_error("recovery_error"@, message@)),
{
    tell_error("recovery_error", message)
}

/// What is told where the place that is asked for cannot be reached.
pub fn unreachable_place(error: &str) -> (r: String)
    ensures
        r@ == "无法连接所选工作目录："@ + error@,
{
    two("无法连接所选工作目录：", error)
}

/// The reply to a text that is no request.
pub open spec fn refused_text(text: Seq<char>, error: Seq<char>) -> ResponseView {
    protocol::failure_view(
        RequestIdView::Text("protocol"@),
        if vstd::utf8::encode_utf8(text).len() > MAX_FRAME_BYTES {
            TOO_LARGE
        } else {
            PARSE_ERROR
        },
        error,
    )
}

/// The reply to a text that is no request.
pub fn refuse_text(text: &str, error: &ProtocolError) -> (r: ServerFrame)
    ensures
        r@ == FrameView::Response(refused_text(text@, protocol::refusal_text(*error))),
{
    let code: i64 = if text.as_bytes().len() > MAX_FRAME_BYTES {
        TOO_LARGE
    } else {
        PARSE_ERROR
    };
    let said = error.message();
    ServerFrame::Response(
        JsonRpcResponse::failure(RequestId::String("protocol".to_owned()), code, said.as_str()),
    )
}

/// The request that is meant to be stopped.
pub open spec fn cancel_target(q: RequestView) -> Option<RequestIdView> {
    if q.method == "agent.cancel"@ {
        match json::field(q.params, "request_id"@) {
            Some(j) => protocol::json_id(j),
            None => None,
        }
    } else {
        None
    }
}

/// The parameters of a request, with the name that the request to stop has in the daemon.
pub open spec fn daemon_params(
    q: RequestView,
    known: Map<RequestIdView, RequestIdView>,
) -> JsonView {
    match cancel_target(q) {
        Some(target) => if known.dom().contains(target) && q.params is Object {
            JsonView::Object(
                json::with_field(
                    q.params->Object_0,
                    "request_id"@,
                    protocol::id_json(known[target]),
                ),
            )
        } else {
            q.params
        },
        None => q.params,
    }
}

/// A request for the daemon.
#[derive(Debug)]
pub struct Forwarded {
    /// Its name outside.
    pub external_id: RequestId,
    pub method: String,
    pub params: Json,
    /// Its turn can be stopped.
    pub is_chat: bool,
}

/// Makes a request for the daemon of one that came over a socket.
pub fn start_websocket_request(request: JsonRpcRequest, known: &IdMap) -> (r: Forwarded)
    requires
        known.wf(),
    ensures
        r.external_id@ == request@.id,
        r.method@ == request@.method,
        r.params@ == daemon_params(request@, known@),
        r.is_chat == (request@.method == "chat.send"@),
{
    let is_chat = text::same(request.method.as_str(), "chat.send");
    let mut internal: Option<RequestId> = None;
    if text::same(request.method.as_str(), "agent.cancel") {
        if let Some(j) = request.params.get("request_id") {
            if let Some(target) = protocol::id_from_json(j) {
                internal = known.get(&target);
            }
        }
    }
    let params = match internal {
        Some(id) => json::set_field(request.params, "request_id", protocol::id_to_json(&id)),
        None => request.params,
    };
    Forwarded { external_id: request.id, method: request.method, params, is_chat }
}

/// The reply where a request could not be handed on.
pub fn not_forwarded(external_id: RequestId, error: &str) -> (r: ServerFrame)
    ensures
        r@ == FrameView::Response(protocol::failure_view(external_id@, SERVICE_ERROR, error@)),
{
    ServerFrame::Response(JsonRpcResponse::failure(external_id, SERVICE_ERROR, error))
}

/// A request to stop something keeps its other parameters.
pub proof fn law_only_the_name_changes(
    q: RequestView,
    known: Map<RequestIdView, RequestIdView>,
    key: Seq<char>,
)
    requires
        key != "request_id"@,
    ensures
        json::field(daemon_params(q, known), key) == json::field(q.params, key),
{
    if let JsonView::Object(fields) = q.params {
        if let Some(target) = cancel_target(q) {
            if known.dom().contains(target) {
                lemma_other_field(
                    fields,
                    "request_id"@,
                    protocol::id_json(known[target]),
                    key,
                    0,
                );
                lemma_index(fields, "request_id"@, 0);
                lemma_index(fields, key, 0);
            }
        }
    }
}

proof fn lemma_index(fields: Seq<(Seq<char>, JsonView)>, key: Seq<char>, from: int)
    requires
        0 <= from <= fields.len(),
    ensures
        from <= json::key_index(fields, key, from) <= fields.len(),
        json::key_index(fields, key, from) < fields.len() ==> fields[json::key_index(
            fields,
            key,
            from,
        )].0 == key,
    decreases fields.len() - from,
{
    if from < fields.len() && fields[from].0 != key {
        lemma_index(fields, key, from + 1);
    }
}

proof fn lemma_other_field(
    fields: Seq<(Seq<char>, JsonView)>,
    set: Seq<char>,
    value: JsonView,
    key: Seq<char>,
    from: int,
)
    requires
        key != set,
        0 <= from <= fields.len(),
    ensures
        ({
            let after = json::with_field(fields, set, value);
            let at = json::key_index(fields, key, from);
            if at < fields.len() {
                json::key_index(after, key, from) == at && after[at] == fields[at]
            } else {
                json::key_index(after, key, from) == after.len()
            }
        }),
    decreases fields.len() - from,
{
    lemma_index(fields, set, 0);
    let after = json::with_field(fields, set, value);
    if from < fields.len() {
        if fields[from].0 != key {
            lemma_other_field(fields, set, value, key, from + 1);
        } else {
            assert(after[from] == fields[from]);
        }
    } else {
        if after.len() > fields.len() {
            assert(after[from].0 == set);
            assert(json::key_index(after, key, from) == json::key_index(after, key, from + 1));
        }
    }
}

/// The questions of no turn that goes on: they are told at once, those of the others come with
/// their turns.
pub open spec fn orphans(v: Seq<approval::ApprovalView>, active: Seq<RequestIdView>) -> Seq<
    approval::ApprovalView,
>
    decreases v.len(),
{
    if v.len() == 0 {
        v
    } else if active.contains(v.last().request_id) {
        orphans(v.drop_last(), active)
    } else {
        orphans(v.drop_last(), active).push(v.last())
    }
}

/// The event that tells a question.
pub open spec fn question_event(a: approval::ApprovalView) -> FrameView {
    FrameView::Event(
        EventView {
            jsonrpc: protocol::JSONRPC_VERSION@,
            request_id: RequestIdView::Text("recovery"@),
            event: EventKind::ApprovalRequired,
            data: JsonView::Object(seq![("approval"@, approval::info_json(a))]),
            run_id: None,
            seq: None,
        },
    )
}

/// What frames say.
pub open spec fn frame_views(v: Seq<ServerFrame>) -> Seq<FrameView> {
    Seq::new(v.len(), |i: int| v[i]@)
}

/// The events that tell questions.
pub open spec fn question_events(v: Seq<approval::ApprovalView>) -> Seq<FrameView> {
    Seq::new(v.len(), |i: int| question_event(v[i]))
}

fn has_id(ids: &Vec<RequestId>, id: &RequestId) -> (r: bool)
    ensures
        r == sessions::id_views(ids@).contains(id@),
{
    let ghost all = sessions::id_views(ids@);
    let mut i: usize = 0;
    while i < ids.len()
        invariant
            i <= ids@.len(),
            all == sessions::id_views(ids@),
            forall|k: int| 0 <= k < i ==> (#[trigger] all[k]) != id@,
        decreases ids@.len() - i,
    {
        if ids[i].same(id) {
            assert(all[i as int] == id@);
            return true;
        }
        i = i + 1;
    }
    false
}

fn tell_question(info: &PendingApprovalInfo) -> (r: ServerFrame)
    ensures
        r@ == question_event(info@),
{
    let mut f = json::no_fields();
    json::put(&mut f, "approval", approval::info_to_json(info));
    assert(json::fields_view(f@) =~= question_event(info@)->Event_0.data->Object_0);
    ServerFrame::Event(
        EventFrame::new(
            RequestId::String("recovery".to_owned()),
            EventKind::ApprovalRequired,
            json::object(f),
        ),
    )
}

/// The events that tell the questions of no turn that goes on.
pub fn recovery_frames(approvals: &Vec<PendingApprovalInfo>, active: &Vec<RequestId>) -> (r: Vec<
    ServerFrame,
>)
    ensures
        frame_views(r@) == question_events(
            orphans(approval::info_views(approvals@), sessions::id_views(active@)),
        ),
{
    let ghost all = approval::info_views(approvals@);
    let ghost ids = sessions::id_views(active@);
    let mut out: Vec<ServerFrame> = Vec::new();
    let mut i: usize = 0;
    assert(all.take(0) =~= Seq::<approval::ApprovalView>::empty());
    assert(frame_views(out@) =~= question_events(orphans(all.take(0), ids)));
    while i < approvals.len()
        invariant
            i <= approvals@.len(),
            all == approval::info_views(approvals@),
            ids == sessions::id_views(active@),
            frame_views(out@) == question_events(orphans(all.take(i as int), ids)),
        decreases approvals@.len() - i,
    {
        proof {
            assert(all.take(i + 1).drop_last() =~= all.take(i as int));
            assert(all.take(i + 1).last() == approvals@[i as int]@);
        }
        if !has_id(active, &approvals[i].request_id) {
            let ghost before = orphans(all.take(i as int), ids);
            let ghost told = frame_views(out@);
            let frame = tell_question(&approvals[i]);
            let ghost said = frame@;
            out.push(frame);
            assert(frame_views(out@) =~= told.push(said));
            assert(question_events(before.push(all[i as int])) =~= question_events(before).push(
                said,
            ));
        }
        i = i + 1;
    }
    assert(all.take(i as int) =~= all);
    out
}

/// Where a place that is asked for is: below the usual one, unless it goes from the root.
pub open spec fn candidate_of(requested: Option<Seq<char>>, default: Seq<char>) -> Seq<char> {
    match requested {
        Some(p) => if crate::entry::editor::is_rooted(p) {
            p
        } else {
            config::below(default, p)
        },
        None => if crate::entry::editor::is_rooted(default) {
            default
        } else {
            config::below(default, default)
        },
    }
}

/// Where a place that is asked for is.
pub fn candidate_path(requested: Option<&str>, default: &str) -> (r: String)
    ensures
        r@ == candidate_of(json::opt_view(requested), default@),
{
    let asked = match requested {
        Some(p) => p,
        None => default,
    };
    let chars = text::chars_of(asked);
    if chars.len() > 0 && chars[0] == '/' {
        asked.to_owned()
    } else {
        config::join_path(default, asked)
    }
}

/// A directory.
#[derive(Debug)]
pub struct Directory {
    pub name: String,
    pub path: String,
}

/// What is told of a directory.
pub struct DirectoryView {
    pub name: Seq<char>,
    pub path: Seq<char>,
}

impl View for Directory {
    type V = DirectoryView;

    open spec fn view(&self) -> DirectoryView {
        DirectoryView { name: self.name@, path: self.path@ }
    }
}

/// What is told of directories.
pub open spec fn directory_views(v: Seq<Directory>) -> Seq<DirectoryView> {
    Seq::new(v.len(), |i: int| v[i]@)
}

/// How many directories are listed.
pub const MAX_DIRECTORIES: usize = 1_000;

/// A text in lower case.
pub uninterp spec fn lowercase_of(s: Seq<char>) -> Seq<char>;

/// `str::to_lowercase`. The outcome depends on the text alone.
#[verifier::external_body]
fn lowercase(s: &str) -> (r: String)
    ensures
        r@ == lowercase_of(s@),
{
    s.to_lowercase()
}

/// A directory stands before another, whatever the case of their names.
pub open spec fn sorts_before(a: DirectoryView, b: DirectoryView) -> bool {
    text::before(lowercase_of(a.name), lowercase_of(b.name))
}

/// Where a directory belongs in a list: behind all that it does not stand before.
pub open spec fn place_of(v: Seq<DirectoryView>, d: DirectoryView, n: int) -> int
    decreases n,
{
    if n <= 0 || !sorts_before(d, v[n - 1]) {
        n
    } else {
        place_of(v, d, n - 1)
    }
}

/// Directories in the order of their names; those of one name stay as they came.
pub open spec fn sorted(v: Seq<DirectoryView>) -> Seq<DirectoryView>
    decreases v.len(),
{
    if v.len() == 0 {
        v
    } else {
        let rest = sorted(v.drop_last());
        rest.insert(place_of(rest, v.last(), rest.len() as int), v.last())
    }
}

proof fn lemma_place(v: Seq<DirectoryView>, d: DirectoryView, n: int)
    requires
        0 <= n <= v.len(),
    ensures
        0 <= place_of(v, d, n) <= n,
    decreases n,
{
    if n > 0 && sorts_before(d, v[n - 1]) {
        lemma_place(v, d, n - 1);
    }
}

/// Sorts directories by their names.
pub fn sort_directories(directories: Vec<Directory>) -> (r: Vec<Directory>)
    ensures
        directory_views(r@) == sorted(directory_views(directories@)),
{
    let ghost all = directory_views(directories@);
    let mut out: Vec<Directory> = Vec::new();
    assert(all.take(0) =~= Seq::<DirectoryView>::empty());
    assert(directory_views(out@) =~= Seq::<DirectoryView>::empty());
    for d in it: directories
        invariant
            all == directory_views(it.seq()),
            directory_views(out@) == sorted(all.take(it.index() as int)),
    {
        let ghost so_far = directory_views(out@);
        proof {
            let i = it.index() as int;
            assert(all.take(i + 1).drop_last() =~= all.take(i));
            assert(all.take(i + 1).last() == all[i]);
            assert(all[i] == d@);
        }
        let own = lowercase(d.name.as_str());
        let mut n: usize = out.len();
        let mut found = false;
        while n > 0 && !found
            invariant
                n <= out@.len(),
                so_far == directory_views(out@),
                own@ == lowercase_of(d@.name),
                if found {
                    place_of(so_far, d@, so_far.len() as int) == n
                } else {
                    place_of(so_far, d@, so_far.len() as int) == place_of(so_far, d@, n as int)
                },
            decreases n, (if found { 0int } else { 1int }),
        {
            assert(so_far[n - 1] == out@[n - 1]@);
            let other = lowercase(out[n - 1].name.as_str());
            if text::is_before(own.as_str(), other.as_str()) {
                n = n - 1;
            } else {
                found = true;
            }
        }
        let ghost said = d@;
        out.insert(n, d);
        assert(directory_views(out@) =~= so_far.insert(n as int, said));
    }
    assert(all.take(all.len() as int) =~= all);
    out
}

/// Sorting keeps every directory.
pub proof fn law_sorting_keeps_all(v: Seq<DirectoryView>)
    ensures
        sorted(v).to_multiset() =~= v.to_multiset(),
        sorted(v).len() == v.len(),
    decreases v.len(),
{
    broadcast use vstd::seq_lib::group_to_multiset_ensures;

    if v.len() > 0 {
        law_sorting_keeps_all(v.drop_last());
        let rest = sorted(v.drop_last());
        let at = place_of(rest, v.last(), rest.len() as int);
        lemma_place(rest, v.last(), rest.len() as int);
        vstd::seq_lib::to_multiset_insert(rest, at, v.last());
        assert(v =~= v.drop_last().push(v.last()));
    }
}

proof fn lemma_place_splits(v: Seq<DirectoryView>, d: DirectoryView, n: int)
    requires
        0 <= n <= v.len(),
    ensures
        ({
            let p = place_of(v, d, n);
            &&& 0 <= p <= n
            &&& p > 0 ==> !sorts_before(d, v[p - 1])
            &&& forall|k: int| p <= k < n ==> #[trigger] sorts_before(d, v[k])
        }),
    decreases n,
{
    if n > 0 && sorts_before(d, v[n - 1]) {
        lemma_place_splits(v, d, n - 1);
    }
}

/// Directories stand in the order of their names.
pub open spec fn in_order(v: Seq<DirectoryView>) -> bool {
    forall|i: int, k: int| 0 <= i < k < v.len() ==> !sorts_before(#[trigger] v[k], #[trigger] v[i])
}

/// Sorting puts directories in the order of their names.
pub proof fn law_sorting_orders(v: Seq<DirectoryView>)
    ensures
        in_order(sorted(v)),
    decreases v.len(),
{
    if v.len() > 0 {
        law_sorting_orders(v.drop_last());
        let rest = sorted(v.drop_last());
        let d = v.last();
        let p = place_of(rest, d, rest.len() as int);
        lemma_place_splits(rest, d, rest.len() as int);
        let all = rest.insert(p, d);
        assert forall|i: int, k: int| 0 <= i < k < all.len() implies !sorts_before(
            #[trigger] all[k],
            #[trigger] all[i],
        ) by {
            if k == p {
                assert(all[i] == rest[i]);
                let a = lowercase_of(d.name);
                let b = lowercase_of(rest[i].name);
                let c = lowercase_of(rest[p - 1].name);
                if i < p - 1 {
                    assert(!sorts_before(rest[p - 1], rest[i]));
                    text::lemma_before_total(b, c);
                    if text::before(a, b) && text::before(b, c) {
                        text::lemma_before_transitive(a, b, c);
                    }
                }
            } else if i == p {
                assert(all[k] == rest[k - 1]);
                assert(sorts_before(d, rest[k - 1]));
                text::lemma_before_total(
                    lowercase_of(d.name),
                    lowercase_of(rest[k - 1].name),
                );
            } else {
                let i0 = if i < p {
                    i
                } else {
                    i - 1
                };
                let k0 = if k < p {
                    k
                } else {
                    k - 1
                };
                assert(all[i] == rest[i0] && all[k] == rest[k0]);
                assert(!sorts_before(rest[k0], rest[i0]));
            }
        }
    }
}

/// The places that are offered: the usual one, and the home of the user.
pub open spec fn favorites_of(default: Seq<char>, home: Option<Seq<char>>) -> Seq<Seq<char>> {
    match home {
        Some(h) => if crate::entry::editor::same_place(default, h) {
            seq![default]
        } else {
            seq![default, h]
        },
        None => seq![default],
    }
}

/// The document of texts.
pub open spec fn texts_json(v: Seq<Seq<char>>) -> JsonView {
    JsonView::Array(Seq::new(v.len(), |i: int| JsonView::Str(v[i])))
}

/// The document of directories.
pub open spec fn directories_json(v: Seq<DirectoryView>) -> JsonView {
    JsonView::Array(
        Seq::new(
            v.len(),
            |i: int|
                JsonView::Object(
                    seq![
                        ("name"@, JsonView::Str(v[i].name)),
                        ("path"@, JsonView::Str(v[i].path)),
                    ],
                ),
        ),
    )
}

/// What is told of a place.
pub open spec fn listing_json(
    path: Seq<char>,
    parent: Option<Seq<char>>,
    directories: Seq<DirectoryView>,
    favorites: Seq<Seq<char>>,
) -> JsonView {
    JsonView::Object(
        seq![
            ("path"@, JsonView::Str(path)),
            (
                "parent"@,
                match parent {
                    Some(p) => JsonView::Str(p),
                    None => JsonView::Null,
                },
            ),
            ("directories"@, directories_json(directories)),
            ("favorites"@, texts_json(favorites)),
        ],
    )
}

fn directories_to_json(v: &Vec<Directory>) -> (r: Json)
    ensures
        r@ == directories_json(directory_views(v@)),
{
    let ghost all = directory_views(v@);
    let ghost wanted = directories_json(all)->Array_0;
    let mut items: Vec<Json> = Vec::new();
    let mut i: usize = 0;
    assert(json::list_view(items@) =~= wanted.take(0));
    while i < v.len()
        invariant
            i <= v@.len(),
            all == directory_views(v@),
            wanted == directories_json(all)->Array_0,
            json::list_view(items@) == wanted.take(i as int),
        decreases v@.len() - i,
    {
        let mut f = json::no_fields();
        json::put(&mut f, "name", Json::Str(v[i].name.clone()));
        json::put(&mut f, "path", Json::Str(v[i].path.clone()));
        assert(json::fields_view(f@) =~= wanted[i as int]->Object_0);
        let item = json::object(f);
        let ghost before = json::list_view(items@);
        let ghost said = item@;
        items.push(item);
        assert(json::list_view(items@) =~= before.push(said));
        assert(wanted.take(i + 1) =~= wanted.take(i as int).push(wanted[i as int]));
        i = i + 1;
    }
    assert(wanted.take(i as int) =~= wanted);
    json::array(items)
}

/// What is told of a place. `directories` are those that were found in it, no more than are
/// listed.
pub fn directory_listing(
    path: &str,
    parent: Option<&str>,
    directories: Vec<Directory>,
    default: &str,
    home: Option<&str>,
) -> (r: Json)
    ensures
        r@ == listing_json(
            path@,
            json::opt_view(parent),
            sorted(directory_views(directories@)),
            favorites_of(default@, json::opt_view(home)),
        ),
{
    let ghost given = directory_views(directories@);
    let directories = sort_directories(directories);
    let ghost places = favorites_of(default@, json::opt_view(home));
    let mut favorites: Vec<Json> = Vec::new();
    favorites.push(Json::of_str(default));
    if let Some(h) = home {
        if !crate::entry::editor::same_path(default, h) {
            favorites.push(Json::of_str(h));
        }
    }
    assert(json::list_view(favorites@) =~= texts_json(places)->Array_0);
    let above = match parent {
        Some(p) => Json::of_str(p),
        None => Json::Null,
    };
    let mut f = json::no_fields();
    json::put(&mut f, "path", Json::of_str(path));
    json::put(&mut f, "parent", above);
    json::put(&mut f, "directories", directories_to_json(&directories));
    json::put(&mut f, "favorites", json::array(favorites));
    assert(json::fields_view(f@) =~= listing_json(
        path@,
        json::opt_view(parent),
        sorted(given),
        places,
    )->Object_0);
    json::object(f)
}

/// The name of the model in use: that of the profile, else the one that was set.
pub fn active_model(profile: Option<&ProviderProfile>, model: &str) -> (r: String)
    ensures
        r@ == (match profile {
            Some(p) => p@.model,
            None => model@,
        }),
{
    match profile {
        Some(p) => p.model.clone(),
        None => model.to_owned(),
    }
}

/// How the service stands.
pub open spec fn health_json(workspace: Seq<char>, model: Seq<char>) -> JsonView {
    JsonView::Object(
        seq![
            ("status"@, JsonView::Str("ok"@)),
            ("daemon"@, JsonView::Str("managed"@)),
            ("workspace"@, JsonView::Str(workspace)),
            ("model"@, JsonView::Str(model)),
        ],
    )
}

/// How the service stands.
pub fn health(workspace: &str, model: &str) -> (r: Json)
    ensures
        r@ == health_json(workspace@, model@),
{
    let mut f = json::no_fields();
    json::put(&mut f, "status", Json::of_str("ok"));
    json::put(&mut f, "daemon", Json::of_str("managed"));
    json::put(&mut f, "workspace", Json::of_str(workspace));
    json::put(&mut f, "model", Json::of_str(model));
    assert(json::fields_view(f@) =~= health_json(workspace@, model@)->Object_0);
    json::object(f)
}

/// The answer of the daemon to a change of the model, with where it is kept.
pub open spec fn applied_json(
    fields: Seq<(Seq<char>, JsonView)>,
    path: Seq<char>,
) -> JsonView {
    JsonView::Object(
        json::with_field(
            json::with_field(
                json::with_field(fields, "runtime_applied"@, JsonView::Bool(true)),
                "warning"@,
                JsonView::Null,
            ),
            "config_path"@,
            JsonView::Str(path),
        ),
    )
}

/// The answer of the daemon to a change of the model, with where it is kept.
pub fn model_applied(result: Json, path: &str) -> (r: Json)
    requires
        result@ is Object || result@ is Null,
    ensures
        r@ == (match result@ {
            JsonView::Object(fields) => applied_json(fields, path@),
            _ => applied_json(Seq::empty(), path@),
        }),
{
    let result = match result {
        Json::Null => json::object(json::no_fields()),
        other => other,
    };
    let r = json::set_field(result, "runtime_applied", Json::Bool(true));
    let r = json::set_field(r, "warning", Json::Null);
    json::set_field(r, "config_path", Json::of_str(path))
}

/// The answer where the daemon was not there, and the model is kept for the next time.
pub open spec fn kept_json(profile: ProfileView, warning: Seq<char>, path: Seq<char>) -> JsonView {
    JsonView::Object(
        seq![
            ("changed"@, JsonView::Bool(true)),
            ("active_id"@, JsonView::Str(profile.id)),
            ("profile"@, models::summary_json(config::summary_of(profile))),
            ("runtime_applied"@, JsonView::Bool(false)),
            ("warning"@, JsonView::Str(warning)),
            ("config_path"@, JsonView::Str(path)),
        ],
    )
}

fn make_kept(profile: &ProviderProfile, warning: String, path: &str) -> (r: Json)
    ensures
        r@ == kept_json(profile@, warning@, path@),
{
    let ghost said = warning@;
    let summary = ProfileSummary::from_profile(profile);
    let mut f = json::no_fields();
    json::put(&mut f, "changed", Json::Bool(true));
    json::put(&mut f, "active_id", Json::Str(profile.id.clone()));
    json::put(&mut f, "profile", models::summary_to_json(&summary));
    json::put(&mut f, "runtime_applied", Json::Bool(false));
    json::put(&mut f, "warning", Json::Str(warning));
    json::put(&mut f, "config_path", Json::of_str(path));
    assert(json::fields_view(f@) =~= kept_json(profile@, said, path@)->Object_0);
    json::object(f)
}

/// The answer where a model was kept while the daemon was not there.
pub open spec fn saved_answer(c: ConfigView, error: Seq<char>, path: Seq<char>) -> Result<
    JsonView,
    Seq<char>,
> {
    match c.active_profile {
        None => Err("保存后没有活动模型配置"@),
        Some(id) => {
            let at = config::profile_index(c.profiles, id, 0);
            if at < c.profiles.len() {
                Ok(
                    kept_json(
                        c.profiles[at],
                        "配置已保存，daemon 将在下次启动时应用："@ + error,
                        path,
                    ),
                )
            } else {
                Err("活动模型配置不存在"@)
            }
        },
    }
}

/// The answer where a model was kept while the daemon was not there.
pub fn model_saved(config: &ConfigFile, error: &str, path: &str) -> (r: Result<Json, String>)
    ensures
        match r {
            Ok(j) => saved_answer(config@, error@, path@) == Ok::<JsonView, Seq<char>>(j@),
            Err(e) => saved_answer(config@, error@, path@) == Err::<JsonView, Seq<char>>(e@),
        },
{
    match &config.active_profile {
        None => Err("保存后没有活动模型配置".to_owned()),
        Some(id) => match config::find_profile(&config.profiles, id.as_str()) {
            Some(i) => Ok(
                make_kept(
                    &config.profiles[i],
                    two("配置已保存，daemon 将在下次启动时应用：", error),
                    path,
                ),
            ),
            None => Err("活动模型配置不存在".to_owned()),
        },
    }
}

/// The answer where a model was made the active one while the daemon was not there.
pub fn model_activated(profile: &ProviderProfile, error: &str, path: &str) -> (r: Json)
    ensures
        r@ == kept_json(profile@, "已保存为下次启动的活动模型："@ + error@, path@),
{
    make_kept(profile, two("已保存为下次启动的活动模型：", error), path)
}

/// The token of a setting: a blank one is none.
pub fn api_token(setting: Option<String>) -> (r: Option<String>)
    ensures
        json::opt_text(r) == (match json::opt_text(setting) {
            Some(s) => if text::blank(s) {
                None
            } else {
                Some(s)
            },
            None => None,
        }),
{
    match setting {
        Some(s) => if text::is_blank(s.as_str()) {
            None
        } else {
            Some(s)
        },
        None => None,
    }
}

/// The service may listen: to others than this machine only with a token.
pub fn check_bind(bind: &str, is_loopback: bool, has_token: bool) -> (r: Result<(), String>)
    ensures
        match r {
            Ok(()) => is_loopback || has_token,
            Err(e) => !is_loopback && !has_token && e@ == "非回环地址 "@ + bind@
                + " 必须设置 MY_AGENT_API_TOKEN；建议默认使用 127.0.0.1:8787"@,
        },
{
    if !is_loopback && !has_token {
        let mut e = two("非回环地址 ", bind);
        e.append(" 必须设置 MY_AGENT_API_TOKEN；建议默认使用 127.0.0.1:8787");
        return Err(e);
    }
    Ok(())
}

/// Answers a browser with the list of the models. `from_env` is the model that the environment
/// gives; a configuration that cannot be read is answered with why.
pub fn web_models(
    config: &Result<ConfigFile, String>,
    from_env: Option<&ProviderProfile>,
    store: &ConfigStore,
) -> (r: Result<Json, String>)
    ensures
        match *config {
            Ok(c) => r is Ok && r->Ok_0@ == models::models_json(
                c@,
                models::opt_profile(from_env),
                store.path@,
            ),
            Err(e) => r is Err && r->Err_0@ == e@,
        },
{
    match config {
        Ok(c) => Ok(models::models_document(c, from_env, store)),
        Err(e) => Err(e.clone()),
    }
}

/// Reading back: the body of an error, field by field.
pub proof fn law_error_body_reads_back(message: Seq<char>)
    ensures
        json::at_key(json::at_key(error_body(message), "error"@), "message"@)
            == JsonView::Str(message),
        json::at_key(json::at_key(error_body(message), "error"@), "type"@)
            == JsonView::Str("my_agent_error"@),
{
    reveal_strlit("error");
    reveal_strlit("message");
    reveal_strlit("type");
    assert("message"@.len() != "type"@.len());
    json::lemma_field_at(error_body(message), "error"@, 0);
    json::lemma_field_at(json::at_key(error_body(message), "error"@), "message"@, 0);
    json::lemma_field_at(json::at_key(error_body(message), "error"@), "type"@, 1);
}

/// Reading back: a piece of a completion, field by field.
pub proof fn law_chunk_reads_back(id: Seq<char>, created: u64, model: Seq<char>, delta: JsonView, finish_reason: JsonView)
    ensures
        json::at_key(chunk_json(id, created, model, delta, finish_reason), "id"@)
            == JsonView::Str(id),
        json::at_key(chunk_json(id, created, model, delta, finish_reason), "object"@)
            == JsonView::Str("chat.completion.chunk"@),
        json::at_key(chunk_json(id, created, model, delta, finish_reason), "created"@)
            == JsonView::Int(created as int),
        json::at_key(chunk_json(id, created, model, delta, finish_reason), "model"@)
            == JsonView::Str(model),
        json::at_key(chunk_json(id, created, model, delta, finish_reason), "choices"@) is Array,
        json::at_key(chunk_json(id, created, model, delta, finish_reason), "choices"@)->Array_0.len()
            == 1,
        json::at_key(json::at_key(chunk_json(id, created, model, delta, finish_reason), "choices"@)->Array_0[0], "index"@)
            == JsonView::Int(0),
        json::at_key(json::at_key(chunk_json(id, created, model, delta, finish_reason), "choices"@)->Array_0[0], "delta"@)
            == delta,
        json::at_key(json::at_key(chunk_json(id, created, model, delta, finish_reason), "choices"@)->Array_0[0], "finish_reason"@)
            == finish_reason,
{
    reveal_strlit("choices");
    reveal_strlit("created");
    reveal_strlit("delta");
    reveal_strlit("finish_reason");
    reveal_strlit("id");
    reveal_strlit("index");
    reveal_strlit("model");
    reveal_strlit("object");
    assert("id"@.len() != "object"@.len());
    assert("id"@.len() != "created"@.len());
    assert("object"@.len() != "created"@.len());
    assert("id"@.len() != "model"@.len());
    assert("object"@.len() != "model"@.len());
    assert("created"@.len() != "model"@.len());
    assert("id"@.len() != "choices"@.len());
    assert("object"@.len() != "choices"@.len());
    assert("created"@[1] != "choices"@[1]);
    assert("model"@.len() != "choices"@.len());
    assert("index"@[0] != "delta"@[0]);
    assert("index"@.len() != "finish_reason"@.len());
    assert("delta"@.len() != "finish_reason"@.len());
    json::lemma_field_at(chunk_json(id, created, model, delta, finish_reason), "id"@, 0);
    json::lemma_field_at(chunk_json(id, created, model, delta, finish_reason), "object"@, 1);
    json::lemma_field_at(chunk_json(id, created, model, delta, finish_reason), "created"@, 2);
    json::lemma_field_at(chunk_json(id, created, model, delta, finish_reason), "model"@, 3);
    json::lemma_field_at(chunk_json(id, created, model, delta, finish_reason), "choices"@, 4);
    json::lemma_field_at(json::at_key(chunk_json(id, created, model, delta, finish_reason), "choices"@)->Array_0[0], "index"@, 0);
    json::lemma_field_at(json::at_key(chunk_json(id, created, model, delta, finish_reason), "choices"@)->Array_0[0], "delta"@, 1);
    json::lemma_field_at(json::at_key(chunk_json(id, created, model, delta, finish_reason), "choices"@)->Array_0[0], "finish_reason"@, 2);
}

/// Reading back: a whole completion, field by field.
pub proof fn law_completion_reads_back(id: Seq<char>, created: u64, model: Seq<char>, content: Seq<char>)
    ensures
        json::at_key(completion_json(id, created, model, content), "id"@) == JsonView::Str(id),
        json::at_key(completion_json(id, created, model, content), "object"@)
            == JsonView::Str("chat.completion"@),
        json::at_key(completion_json(id, created, model, content), "created"@)
            == JsonView::Int(created as int),
        json::at_key(completion_json(id, created, model, content), "model"@)
            == JsonView::Str(model),
        json::at_key(completion_json(id, created, model, content), "choices"@) is Array,
        json::at_key(completion_json(id, created, model, content), "choices"@)->Array_0.len() == 1,
        json::at_key(json::at_key(completion_json(id, created, model, content), "choices"@)->Array_0[0], "index"@)
            == JsonView::Int(0),
        json::at_key(json::at_key(json::at_key(completion_json(id, created, model, content), "choices"@)->Array_0[0], "message"@), "role"@)
            == JsonView::Str("assistant"@),
        json::at_key(json::at_key(json::at_key(completion_json(id, created, model, content), "choices"@)->Array_0[0], "message"@), "content"@)
            == JsonView::Str(content),
        json::at_key(json::at_key(completion_json(id, created, model, content), "choices"@)->Array_0[0], "finish_reason"@)
            == JsonView::Str("stop"@),
{
    reveal_strlit("choices");
    reveal_strlit("content");
    reveal_strlit("created");
    reveal_strlit("finish_reason");
    reveal_strlit("id");
    reveal_strlit("index");
    reveal_strlit("message");
    reveal_strlit("model");
    reveal_strlit("object");
    reveal_strlit("role");
    assert("id"@.len() != "object"@.len());
    assert("id"@.len() != "created"@.len());
    assert("object"@.len() != "created"@.len());
    assert("id"@.len() != "model"@.len());
    assert("object"@.len() != "model"@.len());
    assert("created"@.len() != "model"@.len());
    assert("id"@.len() != "choices"@.len());
    assert("object"@.len() != "choices"@.len());
    assert("created"@[1] != "choices"@[1]);
    assert("model"@.len() != "choices"@.len());
    assert("index"@.len() != "message"@.len());
    assert("role"@.len() != "content"@.len());
    assert("index"@.len() != "finish_reason"@.len());
    assert("message"@.len() != "finish_reason"@.len());
    json::lemma_field_at(completion_json(id, created, model, content), "id"@, 0);
    json::lemma_field_at(completion_json(id, created, model, content), "object"@, 1);
    json::lemma_field_at(completion_json(id, created, model, content), "created"@, 2);
    json::lemma_field_at(completion_json(id, created, model, content), "model"@, 3);
    json::lemma_field_at(completion_json(id, created, model, content), "choices"@, 4);
    json::lemma_field_at(json::at_key(completion_json(id, created, model, content), "choices"@)->Array_0[0], "index"@, 0);
    json::lemma_field_at(json::at_key(completion_json(id, created, model, content), "choices"@)->Array_0[0], "message"@, 1);
    json::lemma_field_at(json::at_key(json::at_key(completion_json(id, created, model, content), "choices"@)->Array_0[0], "message"@), "role"@, 0);
    json::lemma_field_at(json::at_key(json::at_key(completion_json(id, created, model, content), "choices"@)->Array_0[0], "message"@), "content"@, 1);
    json::lemma_field_at(json::at_key(completion_json(id, created, model, content), "choices"@)->Array_0[0], "finish_reason"@, 2);
}

/// Reading back: the document of a failure within a completion, field by field.
pub proof fn law_failure_reads_back(message: Seq<char>)
    ensures
        json::at_key(json::at_key(failure_json(message), "error"@), "message"@)
            == JsonView::Str(message),
{
    reveal_strlit("error");
    reveal_strlit("message");
    json::lemma_field_at(failure_json(message), "error"@, 0);
    json::lemma_field_at(json::at_key(failure_json(message), "error"@), "message"@, 0);
}

/// Reading back: the document of an error of the daemon within a completion, field by
/// field.
pub proof fn law_coded_reads_back(code: i64, message: Seq<char>)
    ensures
        json::at_key(json::at_key(coded_json(code, message), "error"@), "code"@)
            == JsonView::Int(code as int),
        json::at_key(json::at_key(coded_json(code, message), "error"@), "message"@)
            == JsonView::Str(message),
{
    reveal_strlit("code");
    reveal_strlit("error");
    reveal_strlit("message");
    assert("code"@.len() != "message"@.len());
    json::lemma_field_at(coded_json(code, message), "error"@, 0);
    json::lemma_field_at(json::at_key(coded_json(code, message), "error"@), "code"@, 0);
    json::lemma_field_at(json::at_key(coded_json(code, message), "error"@), "message"@, 1);
}

/// Reading back: the delta of a completion, field by field.
pub proof fn law_delta_reads_back(delta: Seq<char>)
    ensures
        json::at_key(delta_json(delta), "content"@) == JsonView::Str(delta),
{
    reveal_strlit("content");
    json::lemma_field_at(delta_json(delta), "content"@, 0);
}

/// Reading back: what is told where a socket is taken up, field by field.
pub proof fn law_connected_reads_back(workspace: Seq<char>)
    ensures
        json::at_key(connected_json(workspace), "type"@) == JsonView::Str("connected"@),
        json::at_key(connected_json(workspace), "protocol"@) == JsonView::Str("my-agent-jsonrpc"@),
        json::at_key(connected_json(workspace), "version"@) == JsonView::Int(1),
        json::at_key(connected_json(workspace), "workspace"@) == JsonView::Str(workspace),
{
    reveal_strlit("protocol");
    reveal_strlit("type");
    reveal_strlit("version");
    reveal_strlit("workspace");
    assert("type"@.len() != "protocol"@.len());
    assert("type"@.len() != "version"@.len());
    assert("protocol"@.len() != "version"@.len());
    assert("type"@.len() != "workspace"@.len());
    assert("protocol"@.len() != "workspace"@.len());
    assert("version"@.len() != "workspace"@.len());
    json::lemma_field_at(connected_json(workspace), "type"@, 0);
    json::lemma_field_at(connected_json(workspace), "protocol"@, 1);
    json::lemma_field_at(connected_json(workspace), "version"@, 2);
    json::lemma_field_at(connected_json(workspace), "workspace"@, 3);
}

/// Reading back: what is told where a socket is refused, or where the work could not be
/// taken up again, field by field.
pub proof fn law_told_error_reads_back(kind: Seq<char>, message: Seq<char>)
    ensures
        json::at_key(told_error(kind, message), "type"@) == JsonView::Str(kind),
        json::at_key(told_error(kind, message), "error"@) == JsonView::Str(message),
{
    reveal_strlit("error");
    reveal_strlit("type");
    assert("type"@.len() != "error"@.len());
    json::lemma_field_at(told_error(kind, message), "type"@, 0);
    json::lemma_field_at(told_error(kind, message), "error"@, 1);
}

/// Reading back: what is told of a place, field by field.
pub proof fn law_listing_reads_back(path: Seq<char>, parent: Option<Seq<char>>, directories: Seq<DirectoryView>, favorites: Seq<Seq<char>>)
    ensures
        json::at_key(listing_json(path, parent, directories, favorites), "path"@)
            == JsonView::Str(path),
        json::at_key(listing_json(path, parent, directories, favorites), "parent"@)
            == match parent { Some(p) => JsonView::Str(p), None => JsonView::Null, },
        json::at_key(listing_json(path, parent, directories, favorites), "directories"@)
            == directories_json(directories),
        json::at_key(listing_json(path, parent, directories, favorites), "favorites"@)
            == texts_json(favorites),
{
    reveal_strlit("directories");
    reveal_strlit("favorites");
    reveal_strlit("parent");
    reveal_strlit("path");
    assert("path"@.len() != "parent"@.len());
    assert("path"@.len() != "directories"@.len());
    assert("parent"@.len() != "directories"@.len());
    assert("path"@.len() != "favorites"@.len());
    assert("parent"@.len() != "favorites"@.len());
    assert("directories"@.len() != "favorites"@.len());
    json::lemma_field_at(listing_json(path, parent, directories, favorites), "path"@, 0);
    json::lemma_field_at(listing_json(path, parent, directories, favorites), "parent"@, 1);
    json::lemma_field_at(listing_json(path, parent, directories, favorites), "directories"@, 2);
    json::lemma_field_at(listing_json(path, parent, directories, favorites), "favorites"@, 3);
}

/// Reading back: how the service stands, field by field.
pub proof fn law_health_reads_back(workspace: Seq<char>, model: Seq<char>)
    ensures
        json::at_key(health_json(workspace, model), "status"@) == JsonView::Str("ok"@),
        json::at_key(health_json(workspace, model), "daemon"@) == JsonView::Str("managed"@),
        json::at_key(health_json(workspace, model), "workspace"@) == JsonView::Str(workspace),
        json::at_key(health_json(workspace, model), "model"@) == JsonView::Str(model),
{
    reveal_strlit("daemon");
    reveal_strlit("model");
    reveal_strlit("status");
    reveal_strlit("workspace");
    assert("status"@[0] != "daemon"@[0]);
    assert("status"@.len() != "workspace"@.len());
    assert("daemon"@.len() != "workspace"@.len());
    assert("status"@.len() != "model"@.len());
    assert("daemon"@.len() != "model"@.len());
    assert("workspace"@.len() != "model"@.len());
    json::lemma_field_at(health_json(workspace, model), "status"@, 0);
    json::lemma_field_at(health_json(workspace, model), "daemon"@, 1);
    json::lemma_field_at(health_json(workspace, model), "workspace"@, 2);
    json::lemma_field_at(health_json(workspace, model), "model"@, 3);
}

/// Reading back: the answer where the daemon was not there, and the model is kept for the
/// next time, field by field.
pub proof fn law_kept_reads_back(profile: ProfileView, warning: Seq<char>, path: Seq<char>)
    ensures
        json::at_key(kept_json(profile, warning, path), "changed"@) == JsonView::Bool(true),
        json::at_key(kept_json(profile, warning, path), "active_id"@) == JsonView::Str(profile.id),
        json::at_key(kept_json(profile, warning, path), "profile"@)
            == models::summary_json(config::summary_of(profile)),
        json::at_key(kept_json(profile, warning, path), "runtime_applied"@)
            == JsonView::Bool(false),
        json::at_key(kept_json(profile, warning, path), "warning"@) == JsonView::Str(warning),
        json::at_key(kept_json(profile, warning, path), "config_path"@) == JsonView::Str(path),
{
    reveal_strlit("active_id");
    reveal_strlit("changed");
    reveal_strlit("config_path");
    reveal_strlit("profile");
    reveal_strlit("runtime_applied");
    reveal_strlit("warning");
    assert("changed"@.len() != "active_id"@.len());
    assert("changed"@[0] != "profile"@[0]);
    assert("active_id"@.len() != "profile"@.len());
    assert("changed"@.len() != "runtime_applied"@.len());
    assert("active_id"@.len() != "runtime_applied"@.len());
    assert("profile"@.len() != "runtime_applied"@.len());
    assert("changed"@[0] != "warning"@[0]);
    assert("active_id"@.len() != "warning"@.len());
    assert("profile"@[0] != "warning"@[0]);
    assert("runtime_applied"@.len() != "warning"@.len());
    assert("changed"@.len() != "config_path"@.len());
    assert("active_id"@.len() != "config_path"@.len());
    assert("profile"@.len() != "config_path"@.len());
    assert("runtime_applied"@.len() != "config_path"@.len());
    assert("warning"@.len() != "config_path"@.len());
    json::lemma_field_at(kept_json(profile, warning, path), "changed"@, 0);
    json::lemma_field_at(kept_json(profile, warning, path), "active_id"@, 1);
    json::lemma_field_at(kept_json(profile, warning, path), "profile"@, 2);
    json::lemma_field_at(kept_json(profile, warning, path), "runtime_applied"@, 3);
    json::lemma_field_at(kept_json(profile, warning, path), "warning"@, 4);
    json::lemma_field_at(kept_json(profile, warning, path), "config_path"@, 5);
}

/// Without a token to ask for anyone may use the service; with one, only who gives it.
pub proof fn law_tokens_open(provided: Option<Seq<char>>, required: Option<Seq<char>>, token: Seq<char>)
    ensures
        required is None ==> opens(provided, required),
        required is Some ==> (opens(provided, required) <==> provided is Some && provided->0
            == required->0),
        bearer_token(Some("Bearer "@ + token)) == Some(token),
        bearer_token(None) is None,
        bearer_token(provided) is Some ==> provided is Some && provided->0 == "Bearer "@
            + bearer_token(provided)->0,
{
    let h = "Bearer "@ + token;
    assert(h.take("Bearer "@.len() as int) =~= "Bearer "@);
    assert(h.skip("Bearer "@.len() as int) =~= token);
    if bearer_token(provided) is Some {
        let p = provided->0;
        assert(p =~= p.take("Bearer "@.len() as int) + p.skip("Bearer "@.len() as int));
    }
}

/// A page of the service itself may use it, and a page of any other host may not.
pub proof fn law_pages_of_the_host_are_allowed(host: Seq<char>, other: Seq<char>)
    requires
        forall|i: int| 0 <= i < host.len() ==> #[trigger] host[i] != '/',
    ensures
        origin_allowed(Some("http://"@ + host), Some(host)),
        origin_allowed(Some("https://"@ + host), Some(host)),
        origin_allowed(None, Some(host)),
        text::lower(other) != text::lower(host) ==> !origin_allowed(
            Some("http://"@ + host),
            Some(other),
        ) && !origin_allowed(Some("https://"@ + host), Some(other)),
        origin_host("http://"@ + host) == Some(host),
        origin_host("https://"@ + host) == Some(host),
{
    reveal_strlit("http://");
    reveal_strlit("https://");
    let a = "http://"@ + host;
    let b = "https://"@ + host;
    assert(a.take("http://"@.len() as int) =~= "http://"@);
    assert(a.skip("http://"@.len() as int) =~= host);
    assert(b.take("https://"@.len() as int) =~= "https://"@);
    assert(b.skip("https://"@.len() as int) =~= host);
    if text::has_prefix(b, "http://"@) {
        assert(b[4] == 's');
        assert(b.take("http://"@.len() as int)[4] == b[4]);
        assert("http://"@[4] == ':');
    }
    lemma_whole_part(host, 0);
    assert(host.take(host.len() as int) =~= host);
}

proof fn lemma_whole_part(s: Seq<char>, from: int)
    requires
        0 <= from <= s.len(),
        forall|i: int| 0 <= i < s.len() ==> #[trigger] s[i] != '/',
    ensures
        crate::entry::editor::part_end(s, from) == s.len(),
    decreases s.len() - from,
{
    if from < s.len() {
        lemma_whole_part(s, from + 1);
    }
}

/// The prompt of a conversation is the text of the last message of the user that says
/// something; without one there is none.
pub proof fn law_the_prompt_is_the_users_last(v: Seq<OpenAiView>)
    ensures
        latest_prompt(v, v.len() as int) is None <==> forall|i: int|
            0 <= i < v.len() ==> (#[trigger] v[i]).role != "user"@ || text::blank(
                content_text(v[i].content),
            ),
        latest_prompt(v, v.len() as int) matches Some(p) ==> exists|k: int|
            0 <= k < v.len() && (#[trigger] v[k]).role == "user"@ && content_text(v[k].content) == p
                && !text::blank(p) && forall|j: int|
                k < j < v.len() ==> (#[trigger] v[j]).role != "user"@ || text::blank(
                    content_text(v[j].content),
                ),
{
    lemma_latest(v, v.len() as int);
}

proof fn lemma_latest(v: Seq<OpenAiView>, n: int)
    requires
        0 <= n <= v.len(),
    ensures
        latest_prompt(v, n) is None <==> forall|i: int|
            0 <= i < n ==> (#[trigger] v[i]).role != "user"@ || text::blank(
                content_text(v[i].content),
            ),
        latest_prompt(v, n) matches Some(p) ==> exists|k: int|
            0 <= k < n && (#[trigger] v[k]).role == "user"@ && content_text(v[k].content) == p
                && !text::blank(p) && forall|j: int|
                k < j < n ==> (#[trigger] v[j]).role != "user"@ || text::blank(
                    content_text(v[j].content),
                ),
    decreases n,
{
    if n > 0 {
        lemma_latest(v, n - 1);
        if v[n - 1].role == "user"@ && !text::blank(content_text(v[n - 1].content)) {
            assert(v[n - 1].role == "user"@);
        } else if latest_prompt(v, n) is Some {
            let p = latest_prompt(v, n)->0;
            let k = choose|k: int|
                0 <= k < n - 1 && (#[trigger] v[k]).role == "user"@ && content_text(v[k].content)
                    == p && !text::blank(p) && forall|j: int|
                    k < j < n - 1 ==> (#[trigger] v[j]).role != "user"@ || text::blank(
                        content_text(v[j].content),
                    );
            assert(v[k].role == "user"@);
        }
    }
}

/// The text of a message is the text itself, or its text parts one to a line, in order; other
/// parts say nothing.
pub proof fn law_texts_of_messages(s: Seq<char>, a: Seq<JsonView>, b: Seq<JsonView>)
    ensures
        content_text(JsonView::Str(s)) == s,
        content_text(JsonView::Null).len() == 0,
        text_parts(a + b) == text_parts(a) + text_parts(b),
        forall|p: JsonView|
            #![trigger text_parts(seq![p])]
            json::at_key(p, "type"@) == JsonView::Str("text"@) && json::at_key(p, "text"@)
                == JsonView::Str(s) ==> text_parts(seq![p]) == seq![s],
        forall|p: JsonView|
            #![trigger text_parts(seq![p])]
            json::at_key(p, "type"@) != JsonView::Str("text"@) ==> text_parts(seq![p]).len() == 0,
    decreases b.len(),
{
    if b.len() == 0 {
        assert(a + b =~= a);
    } else {
        law_texts_of_messages(s, a, b.drop_last());
        assert((a + b).drop_last() =~= a + b.drop_last());
        assert((a + b).last() == b.last());
    }
    assert(text_parts(a + b) =~= text_parts(a) + text_parts(b));
    assert forall|p: JsonView|
        #![trigger text_parts(seq![p])]
        json::at_key(p, "type"@) == JsonView::Str("text"@) && json::at_key(p, "text"@)
            == JsonView::Str(s) implies text_parts(seq![p]) == seq![s] by {
        assert(seq![p].drop_last() =~= Seq::<JsonView>::empty());
        reveal_with_fuel(text_parts, 2);
        assert(text_parts(seq![p]) =~= seq![s]);
    }
    assert forall|p: JsonView|
        #![trigger text_parts(seq![p])]
        json::at_key(p, "type"@) != JsonView::Str("text"@) implies text_parts(seq![p]).len()
        == 0 by {
        assert(seq![p].drop_last() =~= Seq::<JsonView>::empty());
        reveal_with_fuel(text_parts, 2);
    }
}

/// A completion is begun only for who may use the service, only with the model in use, and
/// only with something that the user says; and then with that.
pub proof fn law_completions_are_checked(
    authorized: bool,
    requested: Option<Seq<char>>,
    active: Seq<char>,
    messages: Seq<OpenAiView>,
)
    ensures
        completion_check(authorized, requested, active, messages) is Ok <==> authorized && (
        requested is None || requested->0 == active) && exists|i: int|
            0 <= i < messages.len() && (#[trigger] messages[i]).role == "user"@ && !text::blank(
                content_text(messages[i].content),
            ),
        completion_check(authorized, requested, active, messages) matches Ok(p) ==> latest_prompt(
            messages,
            messages.len() as int,
        ) == Some(p),
        completion_check(authorized, requested, active, messages) matches Err((status, _)) ==> (
        status is Unauthorized <==> !authorized),
{
    law_the_prompt_is_the_users_last(messages);
}

/// The answer of a turn is the content of its reply; an error of the reply is a failure that
/// tells it. Events give no answer.
pub proof fn law_answers_come_from_replies(f: FrameView)
    ensures
        answer_frame(f) matches AnswerView::Answer(s) ==> (f matches FrameView::Response(r) && r.error
            is None && r.result is Some && json::at_key(r.result->0, "content"@) == JsonView::Str(
            s,
        )),
        f matches FrameView::Response(r) ==> r.error is None && r.result is Some ==> (
        json::at_key(r.result->0, "content"@) matches JsonView::Str(s) ==> answer_frame(f)
            == AnswerView::Answer(s)),
        f matches FrameView::Response(r) ==> r.error is Some ==> (answer_frame(
            f,
        ) matches AnswerView::Failure(e) && r.error->0.message.is_suffix_of(e)),
        f matches FrameView::Event(e) ==> e.event != EventKind::ApprovalRequired ==> answer_frame(f)
            is Nothing,
        answer_frame(f) matches AnswerView::Deny(id) ==> (f matches FrameView::Event(e) && e.event
            == EventKind::ApprovalRequired && json::at_key(
            json::at_key(e.data, "approval"@),
            "id"@,
        ) == JsonView::Str(id)),
{
    if let FrameView::Response(r) = f {
        if let Some(e) = r.error {
            let t = cli::rpc_error_text(e.code, e.message);
            assert(t.subrange(t.len() - e.message.len(), t.len() as int) =~= e.message);
        }
    }
}

/// A stream sends each piece of text as a piece of the completion, under its identifier, time
/// and model; it goes on until the reply, which ends it.
pub proof fn law_pieces_are_streamed(c: CompletionView, f: FrameView)
    ensures
        f matches FrameView::Event(e) ==> e.event == EventKind::TextDelta ==> (json::at_key(
            e.data,
            "delta"@,
        ) matches JsonView::Str(d) ==> stream_frame(c, f).1 == c && exists|j: JsonView|
            stream_frame(c, f).0 == StreamView::Send(#[trigger] json::json_text_of(j))
                && json::at_key(j, "id"@) == JsonView::Str(c.completion_id) && json::at_key(
                j,
                "created"@,
            ) == JsonView::Int(c.created as int) && json::at_key(j, "model"@) == JsonView::Str(
                c.model,
            ) && json::at_key(
                json::at_key(json::at_key(j, "choices"@)->Array_0[0], "delta"@),
                "content"@,
            ) == JsonView::Str(d)),
        f matches FrameView::Event(e) ==> e.event != EventKind::TextDelta && e.event
            != EventKind::ApprovalRequired ==> stream_frame(c, f) == (StreamView::Nothing, c),
        f is Response ==> stream_frame(c, f).1.done_pending && stream_frame(c, f).0 is Send,
        stream_frame(c, f).1.model == c.model,
        stream_frame(c, f).1.completion_id == c.completion_id,
        stream_frame(c, f).1.created == c.created,
        stream_frame(c, f).1.finished == c.finished,
        f matches FrameView::Response(r) ==> r.error is Some ==> stream_frame(c, f).0
            == StreamView::Send(
            json::json_text_of(coded_json(r.error->0.code, r.error->0.message)),
        ),
        f matches FrameView::Response(r) ==> r.error is None ==> exists|j: JsonView|
            stream_frame(c, f).0 == StreamView::Send(#[trigger] json::json_text_of(j))
                && json::at_key(
                json::at_key(j, "choices"@)->Array_0[0],
                "finish_reason"@,
            ) == JsonView::Str("stop"@),
{
    match f {
        FrameView::Event(e) => {
            if e.event == EventKind::TextDelta {
                let d = frames::str_or(e.data, "delta"@, ""@);
                law_delta_reads_back(d);
                law_chunk_reads_back(
                    c.completion_id,
                    c.created,
                    c.model,
                    delta_json(d),
                    JsonView::Null,
                );
                let j = chunk_json(
                    c.completion_id,
                    c.created,
                    c.model,
                    delta_json(d),
                    JsonView::Null,
                );
                assert(stream_frame(c, f).0 == StreamView::Send(json::json_text_of(j)));
            }
        },
        FrameView::Response(r) => {
            if r.error is None {
                let j = chunk_json(
                    c.completion_id,
                    c.created,
                    c.model,
                    JsonView::Object(Seq::empty()),
                    JsonView::Str("stop"@),
                );
                law_chunk_reads_back(
                    c.completion_id,
                    c.created,
                    c.model,
                    JsonView::Object(Seq::empty()),
                    JsonView::Str("stop"@),
                );
                assert(stream_frame(c, f).0 == StreamView::Send(json::json_text_of(j)));
            }
        },
    }
}

/// A frame goes out under the name its request has outside, and otherwise as it is.
pub proof fn law_frames_go_out_renamed(f: FrameView, id: RequestIdView, other: RequestIdView)
    ensures
        protocol::frame_id(renamed(f, id)) == id,
        renamed(renamed(f, other), id) == renamed(f, id),
        renamed(f, protocol::frame_id(f)) == f,
        f matches FrameView::Event(e) ==> (renamed(f, id) matches FrameView::Event(g) && g.event
            == e.event && g.data == e.data && g.run_id == e.run_id && g.seq == e.seq),
        f matches FrameView::Response(r) ==> (renamed(f, id) matches FrameView::Response(s)
            && s.result == r.result && s.error == r.error),
{
}

/// A cancellation reaches the daemon under the name it knows the request by; a name that is
/// not known goes on as it is, and other methods are not touched.
pub proof fn law_cancellations_are_renamed(
    q: RequestView,
    known: Map<RequestIdView, RequestIdView>,
    target: RequestIdView,
)
    ensures
        q.method != "agent.cancel"@ ==> daemon_params(q, known) == q.params,
        q.method == "agent.cancel"@ && q.params is Object && json::field(q.params, "request_id"@)
            == Some(protocol::id_json(target)) && known.dom().contains(target) ==> json::at_key(
            daemon_params(q, known),
            "request_id"@,
        ) == protocol::id_json(known[target]),
        q.method == "agent.cancel"@ && json::field(q.params, "request_id"@) == Some(
            protocol::id_json(target),
        ) && !known.dom().contains(target) ==> daemon_params(q, known) == q.params,
{
    protocol::law_identifiers_keep_their_kind(target, target);
    if q.params is Object && known.dom().contains(target) {
        json::law_setting_a_field(
            q.params->Object_0,
            "request_id"@,
            protocol::id_json(known[target]),
            "request_id"@,
        );
    }
}

/// A socket is taken up only with the frame that connects it, and then at the place that the
/// frame names.
pub proof fn law_sockets_connect_where_asked(
    parsed: Result<JsonView, Seq<char>>,
    required: Option<Seq<char>>,
)
    ensures
        connect_outcome(parsed, required) matches ConnectView::Connect { workspace } ==> parsed is Ok
            && (parsed->Ok_0 is Object ==> json::at_key(parsed->Ok_0, "type"@) == JsonView::Str(
            "connect"@,
        ) && json::at_key(parsed->Ok_0, "workspace"@) == (match workspace {
            Some(w) => JsonView::Str(w),
            None => JsonView::Null,
        }) && (required is Some ==> json::at_key(parsed->Ok_0, "token"@) == JsonView::Str(
            required->0,
        ))),
        parsed is Err ==> connect_outcome(parsed, required) is Refuse,
        !(connect_outcome(parsed, required) is Leave),
{
}

/// A text that is refused is answered as too large exactly where it is, and else as not
/// understood.
pub proof fn law_refused_texts(text: Seq<char>, error: Seq<char>)
    ensures
        refused_text(text, error).error is Some,
        refused_text(text, error).result is None,
        refused_text(text, error).error->0.message == error,
        refused_text(text, error).error->0.code == TOO_LARGE <==> vstd::utf8::encode_utf8(
            text,
        ).len() > MAX_FRAME_BYTES,
        refused_text(text, error).error->0.code == TOO_LARGE || refused_text(
            text,
            error,
        ).error->0.code == PARSE_ERROR,
{
}

/// The questions without an owner are those whose request is no longer at work, each once and
/// in order; they are asked again as questions.
pub proof fn law_questions_without_an_owner(
    v: Seq<approval::ApprovalView>,
    active: Seq<RequestIdView>,
)
    ensures
        forall|i: int|
            0 <= i < v.len() && !active.contains((#[trigger] v[i]).request_id) ==> orphans(
                v,
                active,
            ).contains(v[i]),
        forall|k: int|
            0 <= k < orphans(v, active).len() ==> v.contains(#[trigger] orphans(v, active)[k])
                && !active.contains(orphans(v, active)[k].request_id),
        orphans(v, active).len() <= v.len(),
        question_events(v).len() == v.len(),
        forall|i: int|
            0 <= i < v.len() ==> (#[trigger] question_events(v)[i] matches FrameView::Event(e)
                && e.event == EventKind::ApprovalRequired && json::at_key(
                json::at_key(e.data, "approval"@),
                "id"@,
            ) == JsonView::Str(v[i].id)),
    decreases v.len(),
{
    assert forall|i: int| 0 <= i < v.len() implies (#[trigger] question_events(
        v,
    )[i] matches FrameView::Event(e) && e.event == EventKind::ApprovalRequired && json::at_key(
        json::at_key(e.data, "approval"@),
        "id"@,
    ) == JsonView::Str(v[i].id)) by {
        approval::law_info_reads_back(v[i]);
        if let FrameView::Event(e) = question_event(v[i]) {
            json::lemma_field_at(e.data, "approval"@, 0);
        }
    }
    if v.len() > 0 {
        let w = v.drop_last();
        law_questions_without_an_owner(w, active);
        let a = orphans(v, active);
        let b = orphans(w, active);
        assert(v[v.len() - 1] == v.last());
        assert forall|i: int|
            0 <= i < v.len() && !active.contains(
                (#[trigger] v[i]).request_id,
            ) implies a.contains(v[i]) by {
            if i < w.len() {
                assert(w[i] == v[i]);
                let k = choose|k: int| 0 <= k < b.len() && b[k] == w[i];
                assert(a[k] == v[i]);
            } else {
                assert(a[a.len() - 1] == v[i]);
            }
        }
        assert forall|k: int| 0 <= k < a.len() implies v.contains(#[trigger] a[k])
            && !active.contains(a[k].request_id) by {
            if k < b.len() {
                assert(a[k] == b[k]);
                let i = choose|i: int| 0 <= i < w.len() && w[i] == b[k];
                assert(v[i] == a[k]);
            }
        }
    }
}

/// A place that is named from the root is taken as it is; any other lies below the place of
/// the service; without a name it is that place.
pub proof fn law_places_are_found(requested: Option<Seq<char>>, default: Seq<char>)
    requires
        crate::entry::editor::is_rooted(default),
    ensures
        requested is None ==> candidate_of(requested, default) == default,
        requested is Some && crate::entry::editor::is_rooted(requested->0) ==> candidate_of(
            requested,
            default,
        ) == requested->0,
        requested is Some && !crate::entry::editor::is_rooted(requested->0)
            ==> default.is_prefix_of(candidate_of(requested, default)) && requested->0.is_suffix_of(
            candidate_of(requested, default),
        ),
{
    if requested is Some {
        config::law_paths_are_put_together(default, requested->0);
    }
}

/// A listing of directories tells each by name and path, in order.
pub proof fn law_directories_read_back(v: Seq<DirectoryView>, texts: Seq<Seq<char>>, i: int)
    ensures
        directories_json(v) is Array,
        directories_json(v)->Array_0.len() == v.len(),
        0 <= i < v.len() ==> json::at_key(directories_json(v)->Array_0[i], "name"@)
            == JsonView::Str(v[i].name) && json::at_key(directories_json(v)->Array_0[i], "path"@)
            == JsonView::Str(v[i].path),
        texts_json(texts) is Array,
        texts_json(texts)->Array_0.len() == texts.len(),
        0 <= i < texts.len() ==> texts_json(texts)->Array_0[i] == JsonView::Str(texts[i]),
{
    reveal_strlit("name");
    reveal_strlit("path");
    assert("name"@[0] != "path"@[0]);
    if 0 <= i < v.len() {
        json::lemma_field_at(directories_json(v)->Array_0[i], "name"@, 0);
        json::lemma_field_at(directories_json(v)->Array_0[i], "path"@, 1);
    }
}

/// The place of the service is always a favourite, and the first; the home is one besides
/// unless it is the same place.
pub proof fn law_favourites(default: Seq<char>, home: Option<Seq<char>>)
    ensures
        favorites_of(default, home).len() > 0,
        favorites_of(default, home)[0] == default,
        home is Some ==> (favorites_of(default, home).len() == 2 <==>
            !crate::entry::editor::same_place(default, home->0)),
        home is None ==> favorites_of(default, home).len() == 1,
        favorites_of(default, home).len() == 2 ==> favorites_of(default, home)[1] == home->0,
{
}

/// What was applied is told as the daemon told it, with where it is kept, without a warning.
pub proof fn law_applied_reads_back(
    fields: Seq<(Seq<char>, JsonView)>,
    path: Seq<char>,
    key: Seq<char>,
)
    ensures
        json::at_key(applied_json(fields, path), "runtime_applied"@) == JsonView::Bool(true),
        json::at_key(applied_json(fields, path), "warning"@) is Null,
        json::at_key(applied_json(fields, path), "config_path"@) == JsonView::Str(path),
        key != "runtime_applied"@ && key != "warning"@ && key != "config_path"@ ==> json::field(
            applied_json(fields, path),
            key,
        ) == json::field(JsonView::Object(fields), key),
{
    reveal_strlit("runtime_applied");
    reveal_strlit("warning");
    reveal_strlit("config_path");
    assert("runtime_applied"@.len() == 15 && "warning"@.len() == 7 && "config_path"@.len() == 11);
    let a = json::with_field(fields, "runtime_applied"@, JsonView::Bool(true));
    let b = json::with_field(a, "warning"@, JsonView::Null);
    json::law_setting_a_field(fields, "runtime_applied"@, JsonView::Bool(true), key);
    json::law_setting_a_field(a, "warning"@, JsonView::Null, key);
    json::law_setting_a_field(a, "warning"@, JsonView::Null, "runtime_applied"@);
    json::law_setting_a_field(b, "config_path"@, JsonView::Str(path), key);
    json::law_setting_a_field(b, "config_path"@, JsonView::Str(path), "runtime_applied"@);
    json::law_setting_a_field(b, "config_path"@, JsonView::Str(path), "warning"@);
}

/// What was kept and not applied is told with the active profile and the reason.
pub proof fn law_kept_models_are_told(c: ConfigView, error: Seq<char>, path: Seq<char>)
    ensures
        saved_answer(c, error, path) is Ok <==> c.active_profile is Some && config::has_profile(
            c.profiles,
            c.active_profile->0,
        ),
        saved_answer(c, error, path) matches Ok(j) ==> json::at_key(j, "active_id"@)
            == JsonView::Str(c.active_profile->0) && json::at_key(j, "runtime_applied"@)
            == JsonView::Bool(false) && json::at_key(j, "config_path"@) == JsonView::Str(path) && (
        json::at_key(j, "warning"@) matches JsonView::Str(w) && error.is_suffix_of(w)),
{
    if c.active_profile is Some {
        let id = c.active_profile->0;
        config::law_profiles_are_found_by_id(c.profiles, id);
        let at = config::profile_index(c.profiles, id, 0);
        if at < c.profiles.len() {
            let w = "配置已保存，daemon 将在下次启动时应用："@ + error;
            law_kept_reads_back(c.profiles[at], w, path);
            assert(w.subrange(w.len() - error.len(), w.len() as int) =~= error);
            assert(c.profiles[at].id == id);
        }
    }
}

/// A frame that fits goes out as it is; one that does not is answered in its place.
pub proof fn law_socket_frames(f: FrameView)
    ensures
        protocol::wire_bytes(protocol::frame_json(f)).len() <= MAX_FRAME_BYTES ==> socket_text(f)
            == json::json_text_of(protocol::frame_json(f)),
        protocol::wire_bytes(protocol::frame_json(f)).len() > MAX_FRAME_BYTES ==> exists|
            g: FrameView,
        |
            socket_text(f) == json::json_text_of(#[trigger] protocol::frame_json(g))
                && protocol::frame_id(g) == protocol::frame_id(f) && (g matches FrameView::Response(
                r,
            ) && r.error is Some && r.error->0.code == TOO_LARGE),
{
    let g = FrameView::Response(
        protocol::failure_view(
            protocol::frame_id(f),
            TOO_LARGE,
            "WebSocket 响应超过帧大小限制"@,
        ),
    );
    assert(protocol::frame_id(g) == protocol::frame_id(f));
    let j = protocol::frame_json(g);
}

/// A socket is taken up only with a text that connects it; one that is gone is left.
pub proof fn law_first_frames(f: FirstFrame, required: Option<Seq<char>>)
    ensures
        first_frame(f, required) is Leave <==> f is Gone,
        first_frame(f, required) is Connect ==> f is Text,
        f matches FirstFrame::Text(s) ==> vstd::utf8::encode_utf8(s@).len() <= MAX_FRAME_BYTES
            ==> first_frame(f, required) == connect_outcome(
            json::json_parse_of(vstd::utf8::encode_utf8(s@)),
            required,
        ),
        f matches FirstFrame::Text(s) ==> vstd::utf8::encode_utf8(s@).len() > MAX_FRAME_BYTES
            ==> first_frame(f, required) is Refuse,
        f is Other ==> first_frame(f, required) is Refuse,
{
}

/// An identifier is written as its number or its text.
pub proof fn law_identifiers_are_written(n: u64, s: Seq<char>)
    ensures
        text::unsigned_value(id_text(RequestIdView::Number(n)), u64::MAX as nat) == Some(n as nat),
        id_text(RequestIdView::Text(s)) == s,
{
    text::law_decimals_read_back(n as nat, u64::MAX as nat);
}

} // verus!
