//! The daemon protocol: JSON-RPC frames, one per line.
use vstd::prelude::*;

use crate::daemon::params;
use crate::json;
use crate::json::{Json, JsonView};
use crate::text;

verus! {

pub const JSONRPC_VERSION: &'static str = "2.0";

pub const MAX_FRAME_BYTES: usize = 4_194_304;

/// The caller's name for a request.
#[derive(Debug, PartialEq, Eq, Hash)]
pub enum RequestId {
    Number(u64),
    String(String),
}

/// What a request identifier says.
pub enum RequestIdView {
    Number(u64),
    Text(Seq<char>),
}

impl View for RequestId {
    type V = RequestIdView;

    open spec fn view(&self) -> RequestIdView {
        match *self {
            RequestId::Number(n) => RequestIdView::Number(n),
            RequestId::String(s) => RequestIdView::Text(s@),
        }
    }
}

impl Clone for RequestId {
    fn clone(&self) -> (r: Self)
        ensures
            r@ == self@,
    {
        match self {
            RequestId::Number(n) => RequestId::Number(*n),
            RequestId::String(s) => RequestId::String(s.clone()),
        }
    }
}

impl RequestId {
    /// Two identifiers name the same request.
    pub fn same(&self, other: &RequestId) -> (r: bool)
        ensures
            r == (self@ == other@),
    {
        match (self, other) {
            (RequestId::Number(a), RequestId::Number(b)) => *a == *b,
            (RequestId::String(a), RequestId::String(b)) => text::same(a.as_str(), b.as_str()),
            _ => false,
        }
    }
}

/// An identifier as a JSON value: a number or a string.
pub open spec fn id_json(id: RequestIdView) -> JsonView {
    match id {
        RequestIdView::Number(n) => JsonView::Int(n as int),
        RequestIdView::Text(s) => JsonView::Str(s),
    }
}

/// The identifier that a JSON value gives.
pub open spec fn json_id(j: JsonView) -> Option<RequestIdView> {
    match j {
        JsonView::Int(n) => if 0 <= n <= u64::MAX {
            Some(RequestIdView::Number(n as u64))
        } else {
            None
        },
        JsonView::Str(s) => Some(RequestIdView::Text(s)),
        _ => None,
    }
}

/// Writes an identifier as a JSON value.
pub fn id_to_json(id: &RequestId) -> (r: Json)
    ensures
        r@ == id_json(id@),
{
    match id {
        RequestId::Number(n) => Json::Unsigned(*n),
        RequestId::String(s) => Json::Str(s.clone()),
    }
}

/// Reads an identifier from a JSON value.
pub fn id_from_json(j: &Json) -> (r: Option<RequestId>)
    ensures
        match r {
            Some(id) => json_id(j@) == Some(id@),
            None => json_id(j@) is None,
        },
{
    match j {
        Json::Unsigned(n) => Some(RequestId::Number(*n)),
        Json::Negative(n) => if *n >= 0 {
            Some(RequestId::Number(*n as u64))
        } else {
            None
        },
        Json::Str(s) => Some(RequestId::String(s.clone())),
        _ => None,
    }
}

/// A request.
#[derive(Debug)]
pub struct JsonRpcRequest {
    pub jsonrpc: String,
    pub id: RequestId,
    pub method: String,
    pub params: Json,
}

/// What a request says.
pub struct RequestView {
    pub jsonrpc: Seq<char>,
    pub id: RequestIdView,
    pub method: Seq<char>,
    pub params: JsonView,
}

impl View for JsonRpcRequest {
    type V = RequestView;

    open spec fn view(&self) -> RequestView {
        RequestView {
            jsonrpc: self.jsonrpc@,
            id: self.id@,
            method: self.method@,
            params: self.params@,
        }
    }
}

impl JsonRpcRequest {
    /// A request of the current version.
    pub fn new(id: RequestId, method: &str, params: Json) -> (r: Self)
        ensures
            r@ == (RequestView {
                jsonrpc: JSONRPC_VERSION@,
                id: id@,
                method: method@,
                params: params@,
            }),
    {
        JsonRpcRequest {
            jsonrpc: JSONRPC_VERSION.to_owned(),
            id,
            method: method.to_owned(),
            params,
        }
    }
}

/// An error reply.
#[derive(Debug)]
pub struct RpcError {
    pub code: i64,
    pub message: String,
    pub data: Option<Json>,
}

/// What an error reply says.
pub struct RpcErrorView {
    pub code: i64,
    pub message: Seq<char>,
    pub data: Option<JsonView>,
}

impl View for RpcError {
    type V = RpcErrorView;

    open spec fn view(&self) -> RpcErrorView {
        RpcErrorView { code: self.code, message: self.message@, data: opt_json(self.data) }
    }
}

/// The view of an optional document.
pub open spec fn opt_json(j: Option<Json>) -> Option<JsonView> {
    match j {
        Some(v) => Some(v@),
        None => None,
    }
}

/// The view of an optional error reply.
pub open spec fn opt_error(e: Option<RpcError>) -> Option<RpcErrorView> {
    match e {
        Some(v) => Some(v@),
        None => None,
    }
}

/// The reply that ends a request.
#[derive(Debug)]
pub struct JsonRpcResponse {
    pub jsonrpc: String,
    pub id: RequestId,
    pub result: Option<Json>,
    pub error: Option<RpcError>,
}

/// What a reply says.
pub struct ResponseView {
    pub jsonrpc: Seq<char>,
    pub id: RequestIdView,
    pub result: Option<JsonView>,
    pub error: Option<RpcErrorView>,
}

impl View for JsonRpcResponse {
    type V = ResponseView;

    open spec fn view(&self) -> ResponseView {
        ResponseView {
            jsonrpc: self.jsonrpc@,
            id: self.id@,
            result: opt_json(self.result),
            error: opt_error(self.error),
        }
    }
}

/// A reply that gives a result.
pub open spec fn success_view(id: RequestIdView, result: JsonView) -> ResponseView {
    ResponseView { jsonrpc: JSONRPC_VERSION@, id, result: Some(result), error: None }
}

/// A reply that gives an error.
pub open spec fn failure_view(id: RequestIdView, code: i64, message: Seq<char>) -> ResponseView {
    ResponseView {
        jsonrpc: JSONRPC_VERSION@,
        id,
        result: None,
        error: Some(RpcErrorView { code, message, data: None }),
    }
}

/// A reply that gives an error with what is needed to go on.
pub open spec fn failure_data_view(
    id: RequestIdView,
    code: i64,
    message: Seq<char>,
    data: JsonView,
) -> ResponseView {
    ResponseView {
        jsonrpc: JSONRPC_VERSION@,
        id,
        result: None,
        error: Some(RpcErrorView { code, message, data: Some(data) }),
    }
}

impl JsonRpcResponse {
    /// A reply that gives an error with what is needed to go on.
    pub fn failure_data(id: RequestId, code: i64, message: &str, data: Json) -> (r: Self)
        ensures
            r@ == failure_data_view(id@, code, message@, data@),
    {
        JsonRpcResponse {
            jsonrpc: JSONRPC_VERSION.to_owned(),
            id,
            result: None,
            error: Some(RpcError { code, message: message.to_owned(), data: Some(data) }),
        }
    }

    /// A reply that gives a result.
    pub fn success(id: RequestId, result: Json) -> (r: Self)
        ensures
            r@ == success_view(id@, result@),
    {
        JsonRpcResponse {
            jsonrpc: JSONRPC_VERSION.to_owned(),
            id,
            result: Some(result),
            error: None,
        }
    }

    /// A reply that gives an error.
    pub fn failure(id: RequestId, code: i64, message: &str) -> (r: Self)
        ensures
            r@ == failure_view(id@, code, message@),
    {
        JsonRpcResponse {
            jsonrpc: JSONRPC_VERSION.to_owned(),
            id,
            result: None,
            error: Some(RpcError { code, message: message.to_owned(), data: None }),
        }
    }
}

/// What happened in a running turn.
#[derive(Clone, Copy, Debug, PartialEq, Eq, Structural)]
pub enum EventKind {
    TurnStarted,
    ThinkingDelta,
    ThinkingFinished,
    TextDelta,
    ToolStarted,
    ToolFinished,
    ApprovalRequired,
    TurnCompleted,
}

/// The wire name of an event.
pub open spec fn kind_name(kind: EventKind) -> Seq<char> {
    match kind {
        EventKind::TurnStarted => "turn_started"@,
        EventKind::ThinkingDelta => "thinking_delta"@,
        EventKind::ThinkingFinished => "thinking_finished"@,
        EventKind::TextDelta => "text_delta"@,
        EventKind::ToolStarted => "tool_started"@,
        EventKind::ToolFinished => "tool_finished"@,
        EventKind::ApprovalRequired => "approval_required"@,
        EventKind::TurnCompleted => "turn_completed"@,
    }
}

/// The wire name of an event.
pub fn event_name(kind: EventKind) -> (r: &'static str)
    ensures
        r@ == kind_name(kind),
{
    match kind {
        EventKind::TurnStarted => "turn_started",
        EventKind::ThinkingDelta => "thinking_delta",
        EventKind::ThinkingFinished => "thinking_finished",
        EventKind::TextDelta => "text_delta",
        EventKind::ToolStarted => "tool_started",
        EventKind::ToolFinished => "tool_finished",
        EventKind::ApprovalRequired => "approval_required",
        EventKind::TurnCompleted => "turn_completed",
    }
}

/// Different events have different wire names.
pub proof fn lemma_kind_names_differ(a: EventKind, b: EventKind)
    requires
        kind_name(a) == kind_name(b),
    ensures
        a == b,
{
    reveal_strlit("turn_started");
    reveal_strlit("thinking_delta");
    reveal_strlit("thinking_finished");
    reveal_strlit("text_delta");
    reveal_strlit("tool_started");
    reveal_strlit("tool_finished");
    reveal_strlit("approval_required");
    reveal_strlit("turn_completed");
    let x = kind_name(a);
    let y = kind_name(b);
    assert(x.len() == y.len());
    assert(x[0] == y[0] && x[1] == y[1] && x[5] == y[5] && x[9] == y[9]);
}

/// The event that a wire name gives.
pub fn event_from_name(name: &str) -> (r: Option<EventKind>)
    ensures
        match r {
            Some(kind) => kind_name(kind) == name@,
            None => forall|kind: EventKind| #[trigger] kind_name(kind) != name@,
        },
{
    if text::same(name, "turn_started") {
        Some(EventKind::TurnStarted)
    } else if text::same(name, "thinking_delta") {
        Some(EventKind::ThinkingDelta)
    } else if text::same(name, "thinking_finished") {
        Some(EventKind::ThinkingFinished)
    } else if text::same(name, "text_delta") {
        Some(EventKind::TextDelta)
    } else if text::same(name, "tool_started") {
        Some(EventKind::ToolStarted)
    } else if text::same(name, "tool_finished") {
        Some(EventKind::ToolFinished)
    } else if text::same(name, "approval_required") {
        Some(EventKind::ApprovalRequired)
    } else if text::same(name, "turn_completed") {
        Some(EventKind::TurnCompleted)
    } else {
        None
    }
}

/// An event of a running turn.
#[derive(Debug)]
pub struct EventFrame {
    pub jsonrpc: String,
    pub request_id: RequestId,
    pub event: EventKind,
    pub data: Json,
    pub run_id: Option<String>,
    pub seq: Option<u64>,
}

/// What an event says.
pub struct EventView {
    pub jsonrpc: Seq<char>,
    pub request_id: RequestIdView,
    pub event: EventKind,
    pub data: JsonView,
    pub run_id: Option<Seq<char>>,
    pub seq: Option<u64>,
}

impl View for EventFrame {
    type V = EventView;

    open spec fn view(&self) -> EventView {
        EventView {
            jsonrpc: self.jsonrpc@,
            request_id: self.request_id@,
            event: self.event,
            data: self.data@,
            run_id: json::opt_text(self.run_id),
            seq: self.seq,
        }
    }
}

impl EventFrame {
    /// An event outside any stored run.
    pub fn new(request_id: RequestId, event: EventKind, data: Json) -> (r: Self)
        ensures
            r@ == (EventView {
                jsonrpc: JSONRPC_VERSION@,
                request_id: request_id@,
                event,
                data: data@,
                run_id: None,
                seq: None,
            }),
    {
        EventFrame {
            jsonrpc: JSONRPC_VERSION.to_owned(),
            request_id,
            event,
            data,
            run_id: None,
            seq: None,
        }
    }
}

/// What the daemon sends.
#[derive(Debug)]
pub enum ServerFrame {
    Event(EventFrame),
    Response(JsonRpcResponse),
}

/// What a daemon frame says.
pub enum FrameView {
    Event(EventView),
    Response(ResponseView),
}

impl View for ServerFrame {
    type V = FrameView;

    open spec fn view(&self) -> FrameView {
        match *self {
            ServerFrame::Event(e) => FrameView::Event(e@),
            ServerFrame::Response(r) => FrameView::Response(r@),
        }
    }
}

/// The request that a frame belongs to.
pub open spec fn frame_id(frame: FrameView) -> RequestIdView {
    match frame {
        FrameView::Event(e) => e.request_id,
        FrameView::Response(r) => r.id,
    }
}

/// The protocol version that a frame carries.
pub open spec fn frame_version(frame: FrameView) -> Seq<char> {
    match frame {
        FrameView::Event(e) => e.jsonrpc,
        FrameView::Response(r) => r.jsonrpc,
    }
}

/// The request that a frame belongs to.
pub fn server_frame_request_id(frame: &ServerFrame) -> (r: &RequestId)
    ensures
        r@ == frame_id(frame@),
{
    match frame {
        ServerFrame::Event(event) => &event.request_id,
        ServerFrame::Response(response) => &response.id,
    }
}

/// Why a frame was refused.
#[derive(Debug)]
pub enum ProtocolError {
    FrameTooLarge { actual: usize, limit: usize },
    InvalidJson(String),
    UnsupportedVersion(String),
}

/// The message of a refusal.
pub open spec fn refusal_text(e: ProtocolError) -> Seq<char> {
    match e {
        ProtocolError::FrameTooLarge { actual, limit } => "协议帧大小 "@ + text::decimal(
            actual as nat,
        ) + " 字节，超过 "@ + text::decimal(limit as nat) + " 字节限制"@,
        ProtocolError::InvalidJson(m) => "JSON-RPC 帧不是合法 JSON: "@ + m@,
        ProtocolError::UnsupportedVersion(v) => "不支持的 JSON-RPC 版本: "@ + v@,
    }
}

impl ProtocolError {
    /// The message shown to the peer.
    pub fn message(&self) -> (r: String)
        ensures
            r@ == refusal_text(*self),
    {
        match self {
            ProtocolError::FrameTooLarge { actual, limit } => {
                let mut r = "协议帧大小 ".to_owned();
                r.append(text::decimal_text(*actual as u64).as_str());
                r.append(" 字节，超过 ");
                r.append(text::decimal_text(*limit as u64).as_str());
                r.append(" 字节限制");
                r
            },
            ProtocolError::InvalidJson(e) => {
                let mut r = "JSON-RPC 帧不是合法 JSON: ".to_owned();
                r.append(e.as_str());
                r
            },
            ProtocolError::UnsupportedVersion(v) => {
                let mut r = "不支持的 JSON-RPC 版本: ".to_owned();
                r.append(v.as_str());
                r
            },
        }
    }
}

/// What a refusal says.
pub enum ProtocolErrorView {
    FrameTooLarge(nat),
    InvalidJson(Seq<char>),
    UnsupportedVersion(Seq<char>),
}

impl View for ProtocolError {
    type V = ProtocolErrorView;

    open spec fn view(&self) -> ProtocolErrorView {
        match *self {
            ProtocolError::FrameTooLarge { actual, limit } => ProtocolErrorView::FrameTooLarge(
                actual as nat,
            ),
            ProtocolError::InvalidJson(e) => ProtocolErrorView::InvalidJson(e@),
            ProtocolError::UnsupportedVersion(v) => ProtocolErrorView::UnsupportedVersion(v@),
        }
    }
}

/// The message for a document without the fields that a frame has.
pub const SHAPE_ERROR: &'static str = "缺少必需字段或字段类型不符";

/// The bytes of a document on the wire, without the line feed that ends a frame.
pub open spec fn wire_bytes(j: JsonView) -> Seq<u8> {
    vstd::utf8::encode_utf8(json::json_text_of(j))
}

/// The bytes end with a line feed and hold no other.
pub open spec fn one_line(bytes: Seq<u8>) -> bool {
    &&& bytes.len() > 0
    &&& bytes.last() == 10
    &&& forall|i: int| 0 <= i < bytes.len() - 1 ==> #[trigger] bytes[i] != 10
}

proof fn lemma_scalar_bytes(v: u32)
    requires
        v != 10,
    ensures
        forall|i: int|
            0 <= i < vstd::utf8::encode_scalar(v).len() ==> #[trigger] vstd::utf8::encode_scalar(
                v,
            )[i] != 10,
{
    assert(v <= 0x7F && v != 10 ==> (v & 0x7F) as u8 != 10) by (bit_vector);
    assert(0xC0 | ((v >> 6) & 0x1F) as u8 != 10) by (bit_vector);
    assert(0xE0 | ((v >> 12) & 0x0F) as u8 != 10) by (bit_vector);
    assert(0xF0 | ((v >> 18) & 0x7) as u8 != 10) by (bit_vector);
    assert(0x80 | (v & 0x3F) as u8 != 10) by (bit_vector);
    assert(0x80 | ((v >> 6) & 0x3F) as u8 != 10) by (bit_vector);
    assert(0x80 | ((v >> 12) & 0x3F) as u8 != 10) by (bit_vector);
}

proof fn lemma_no_feed(s: Seq<char>)
    requires
        !s.contains('\n'),
    ensures
        forall|i: int|
            0 <= i < vstd::utf8::encode_utf8(s).len() ==> #[trigger] vstd::utf8::encode_utf8(s)[i]
                != 10,
    decreases s.len(),
{
    if s.len() > 0 {
        let rest = s.drop_first();
        assert(s.contains(s[0]));
        assert forall|i: int| 0 <= i < rest.len() implies rest[i] != '\n' by {
            assert(rest[i] == s[i + 1]);
            assert(s.contains(s[i + 1]));
        }
        lemma_no_feed(rest);
        let c: char = s[0];
        vstd::utf8::char_is_scalar(c);
        assert(c != '\n');
        assert(c as u32 != 10) by {
            if c as u32 == 10 {
                vstd::utf8::char_u32_cast(c, 10);
                vstd::utf8::char_u32_cast('\n', 10);
            }
        }
        lemma_scalar_bytes(c as u32);
        let head = vstd::utf8::encode_scalar(s[0] as u32);
        let tail = vstd::utf8::encode_utf8(rest);
        assert(vstd::utf8::encode_utf8(s) == head + tail);
    }
}

/// Encodes a document as a frame: its text and a line feed.
pub fn encode_frame(frame: &Json) -> (r: Result<Vec<u8>, ProtocolError>)
    ensures
        match r {
            Ok(bytes) => wire_bytes(frame@).len() <= MAX_FRAME_BYTES && bytes@ == wire_bytes(
                frame@,
            ).push(10u8) && one_line(bytes@),
            Err(e) => wire_bytes(frame@).len() > MAX_FRAME_BYTES && (
            e matches ProtocolError::FrameTooLarge { actual, limit } && actual == wire_bytes(frame@).len()
                && limit == MAX_FRAME_BYTES),
        },
        match r {
            Ok(bytes) => json::portable(frame@, json::MAX_JSON_DEPTH as nat)
                ==> json::json_parse_of(bytes@) == json::read_ok(frame@),
            Err(_) => true,
        },
{
    let line = json::json_text(frame);
    proof {
        lemma_no_feed(line@);
    }
    let mut bytes = line.as_str().as_bytes_vec();
    if bytes.len() > MAX_FRAME_BYTES {
        return Err(
            ProtocolError::FrameTooLarge { actual: bytes.len(), limit: MAX_FRAME_BYTES },
        );
    }
    bytes.push(10u8);
    Ok(bytes)
}

/// The document that carries a request.
pub open spec fn request_json(q: RequestView) -> JsonView {
    JsonView::Object(
        seq![
            ("jsonrpc"@, JsonView::Str(q.jsonrpc)),
            ("id"@, id_json(q.id)),
            ("method"@, JsonView::Str(q.method)),
            ("params"@, q.params),
        ],
    )
}

/// The request made of these four values, where they have the right types.
pub open spec fn request_of(
    jsonrpc: JsonView,
    id: JsonView,
    method: JsonView,
    params: JsonView,
) -> Option<RequestView> {
    match (jsonrpc, json_id(id), method) {
        (JsonView::Str(v), Some(i), JsonView::Str(m)) => Some(
            RequestView { jsonrpc: v, id: i, method: m, params },
        ),
        _ => None,
    }
}

/// The request that a document carries: an object with these fields, parameters
/// being optional, or an array of the same values in this order.
pub open spec fn json_request(j: JsonView) -> Option<RequestView> {
    match j {
        JsonView::Object(_) => match (
            json::field(j, "jsonrpc"@),
            json::field(j, "id"@),
            json::field(j, "method"@),
        ) {
            (Some(v), Some(i), Some(m)) => request_of(v, i, m, json::at_key(j, "params"@)),
            _ => None,
        },
        JsonView::Array(v) => if v.len() == 3 {
            request_of(v[0], v[1], v[2], JsonView::Null)
        } else if v.len() == 4 {
            request_of(v[0], v[1], v[2], v[3])
        } else {
            None
        },
        _ => None,
    }
}

/// Writes a request as a document.
pub fn request_to_json(q: &JsonRpcRequest) -> (r: Json)
    ensures
        r@ == request_json(q@),
{
    let mut f = json::no_fields();
    json::put(&mut f, "jsonrpc", Json::Str(q.jsonrpc.clone()));
    json::put(&mut f, "id", id_to_json(&q.id));
    json::put(&mut f, "method", Json::Str(q.method.clone()));
    json::put(&mut f, "params", q.params.clone());
    assert(json::fields_view(f@) =~= request_json(q@)->Object_0);
    json::object(f)
}

fn build_request(jsonrpc: &Json, id: &Json, method: &Json, params: Json) -> (r: Option<
    JsonRpcRequest,
>)
    ensures
        match r {
            Some(q) => request_of(jsonrpc@, id@, method@, params@) == Some(q@),
            None => request_of(jsonrpc@, id@, method@, params@) is None,
        },
{
    match (jsonrpc.as_str(), id_from_json(id), method.as_str()) {
        (Some(v), Some(i), Some(m)) => Some(
            JsonRpcRequest { jsonrpc: v.to_owned(), id: i, method: m.to_owned(), params },
        ),
        _ => None,
    }
}

/// Reads a request from a document.
pub fn request_from_json(j: &Json) -> (r: Option<JsonRpcRequest>)
    ensures
        match r {
            Some(q) => json_request(j@) == Some(q@),
            None => json_request(j@) is None,
        },
{
    match j {
        Json::Object(f) => {
            proof {
                json::lemma_object_view(*f);
            }
            match (j.get("jsonrpc"), j.get("id"), j.get("method")) {
                (Some(v), Some(i), Some(m)) => {
                    let params = match j.get("params") {
                        Some(p) => p.clone(),
                        None => Json::Null,
                    };
                    build_request(v, i, m, params)
                },
                _ => None,
            }
        },
        Json::Array(v) => {
            proof {
                json::lemma_array_view(*v);
            }
            if v.len() == 3 {
                build_request(&v[0], &v[1], &v[2], Json::Null)
            } else if v.len() == 4 {
                build_request(&v[0], &v[1], &v[2], v[3].clone())
            } else {
                None
            }
        },
        _ => None,
    }
}

/// What was read of a request, or why it could not be.
pub open spec fn read_view(r: Result<JsonRpcRequest, String>) -> Result<RequestView, Seq<char>> {
    match r {
        Ok(q) => Ok(q@),
        Err(e) => Err(e@),
    }
}

/// What the daemon makes of a request of so many bytes that was read.
pub open spec fn request_judged(
    size: nat,
    read: Result<RequestView, Seq<char>>,
) -> Result<RequestView, ProtocolErrorView> {
    if size > MAX_FRAME_BYTES {
        Err(ProtocolErrorView::FrameTooLarge(size))
    } else {
        match read {
            Err(e) => Err(ProtocolErrorView::InvalidJson(e)),
            Ok(q) => if q.jsonrpc != JSONRPC_VERSION@ {
                Err(ProtocolErrorView::UnsupportedVersion(q.jsonrpc))
            } else {
                Ok(q)
            },
        }
    }
}

/// The request that bytes carry, or why they carry none.
pub open spec fn bytes_request(bytes: Seq<u8>) -> Result<RequestView, Seq<char>> {
    match json::json_parse_of(bytes) {
        Err(e) => Err(e),
        Ok(j) => match json_request(j) {
            None => Err(SHAPE_ERROR@),
            Some(q) => Ok(q),
        },
    }
}

/// What the daemon makes of the bytes of a request.
pub open spec fn request_outcome(bytes: Seq<u8>) -> Result<RequestView, ProtocolErrorView> {
    request_judged(bytes.len(), bytes_request(bytes))
}

/// Decides on a request of so many bytes, once it was read: one that is too large is refused
/// whatever was read of it.
pub fn judge_request(size: usize, read: Result<JsonRpcRequest, String>) -> (r: Result<
    JsonRpcRequest,
    ProtocolError,
>)
    ensures
        match r {
            Ok(q) => request_judged(size as nat, read_view(read)) == Ok::<
                RequestView,
                ProtocolErrorView,
            >(q@),
            Err(e) => request_judged(size as nat, read_view(read)) == Err::<
                RequestView,
                ProtocolErrorView,
            >(e@),
        },
        r matches Err(ProtocolError::FrameTooLarge { actual, limit }) ==> limit == MAX_FRAME_BYTES,
{
    if size > MAX_FRAME_BYTES {
        return Err(ProtocolError::FrameTooLarge { actual: size, limit: MAX_FRAME_BYTES });
    }
    match read {
        Err(e) => Err(ProtocolError::InvalidJson(e)),
        Ok(q) => if !text::same(q.jsonrpc.as_str(), JSONRPC_VERSION) {
            Err(ProtocolError::UnsupportedVersion(q.jsonrpc))
        } else {
            Ok(q)
        },
    }
}

/// Decodes a request. Where a field is named twice the last value stands, because that is what
/// `serde_json` keeps of a document.
pub fn decode_request(bytes: &[u8]) -> (r: Result<JsonRpcRequest, ProtocolError>)
    ensures
        match r {
            Ok(q) => request_outcome(bytes@) == Ok::<RequestView, ProtocolErrorView>(q@),
            Err(e) => request_outcome(bytes@) == Err::<RequestView, ProtocolErrorView>(e@),
        },
        r matches Err(ProtocolError::FrameTooLarge { actual, limit }) ==> limit == MAX_FRAME_BYTES,
{
    if bytes.len() > MAX_FRAME_BYTES {
        return Err(
            ProtocolError::FrameTooLarge { actual: bytes.len(), limit: MAX_FRAME_BYTES },
        );
    }
    let read = match json::parse_json(bytes) {
        Err(e) => Err(e),
        Ok(j) => match request_from_json(&j) {
            None => Err(SHAPE_ERROR.to_owned()),
            Some(q) => Ok(q),
        },
    };
    judge_request(bytes.len(), read)
}

/// A request is read back from its own document.
pub proof fn law_request_document(q: RequestView)
    ensures
        json_request(request_json(q)) == Some(q),
{
    reveal_strlit("jsonrpc");
    reveal_strlit("id");
    reveal_strlit("method");
    reveal_strlit("params");
    let f = request_json(q)->Object_0;
    assert("jsonrpc"@.len() == 7 && "id"@.len() == 2 && "method"@.len() == 6 && "params"@.len()
        == 6);
    assert("method"@[0] == 'm' && "params"@[0] == 'p');
    reveal_with_fuel(json::key_index, 5);
    assert(json::key_index(f, "jsonrpc"@, 0) == 0);
    assert(json::key_index(f, "id"@, 0) == 1);
    assert(json::key_index(f, "method"@, 0) == 2);
    assert(json::key_index(f, "params"@, 0) == 3);
}

/// Encodes a request. Its frame decodes to the same request, where the
/// parameters are portable and the frame with its line feed is no longer than
/// what is accepted.
pub fn encode_request(q: &JsonRpcRequest) -> (r: Result<Vec<u8>, ProtocolError>)
    ensures
        match r {
            Ok(bytes) => {
                &&& bytes@ == wire_bytes(request_json(q@)).push(10u8)
                &&& one_line(bytes@)
                &&& wire_bytes(request_json(q@)).len() <= MAX_FRAME_BYTES
                &&& json::portable(request_json(q@), json::MAX_JSON_DEPTH as nat)
                    && bytes@.len() <= MAX_FRAME_BYTES && q@.jsonrpc == JSONRPC_VERSION@
                    ==> request_outcome(bytes@) == Ok::<RequestView, ProtocolErrorView>(q@)
            },
            Err(e) => wire_bytes(request_json(q@)).len() > MAX_FRAME_BYTES && (
            e matches ProtocolError::FrameTooLarge { actual, limit } && actual == wire_bytes(request_json(q@)).len()
                && limit == MAX_FRAME_BYTES),
        },
{
    let j = request_to_json(q);
    proof {
        law_request_document(q@);
    }
    encode_frame(&j)
}

/// One field, where there is a value for it.
pub open spec fn opt_field(key: Seq<char>, value: Option<JsonView>) -> Seq<(Seq<char>, JsonView)> {
    match value {
        Some(v) => seq![(key, v)],
        None => Seq::empty(),
    }
}

/// An optional text as an optional document.
pub open spec fn opt_str(s: Option<Seq<char>>) -> Option<JsonView> {
    match s {
        Some(t) => Some(JsonView::Str(t)),
        None => None,
    }
}

/// An optional number as an optional document.
pub open spec fn opt_int(n: Option<u64>) -> Option<JsonView> {
    match n {
        Some(v) => Some(JsonView::Int(v as int)),
        None => None,
    }
}

/// The document of an error.
pub open spec fn error_json(e: RpcErrorView) -> JsonView {
    JsonView::Object(
        seq![("code"@, JsonView::Int(e.code as int)), ("message"@, JsonView::Str(e.message))]
            + opt_field("data"@, e.data),
    )
}

/// An optional error as an optional document.
pub open spec fn opt_error_json(e: Option<RpcErrorView>) -> Option<JsonView> {
    match e {
        Some(v) => Some(error_json(v)),
        None => None,
    }
}

/// The document of an event.
pub open spec fn event_json(e: EventView) -> JsonView {
    JsonView::Object(
        seq![
            ("frame"@, JsonView::Str("event"@)),
            ("jsonrpc"@, JsonView::Str(e.jsonrpc)),
            ("request_id"@, id_json(e.request_id)),
            ("event"@, JsonView::Str(kind_name(e.event))),
            ("data"@, e.data),
        ] + opt_field("run_id"@, opt_str(e.run_id)) + opt_field("seq"@, opt_int(e.seq)),
    )
}

/// The document of a reply.
pub open spec fn response_json(r: ResponseView) -> JsonView {
    JsonView::Object(
        seq![
            ("frame"@, JsonView::Str("response"@)),
            ("jsonrpc"@, JsonView::Str(r.jsonrpc)),
            ("id"@, id_json(r.id)),
        ] + opt_field("result"@, r.result) + opt_field("error"@, opt_error_json(r.error)),
    )
}

/// The document of a daemon frame.
pub open spec fn frame_json(f: FrameView) -> JsonView {
    match f {
        FrameView::Event(e) => event_json(e),
        FrameView::Response(r) => response_json(r),
    }
}

fn put_opt(fields: &mut Vec<(String, Json)>, key: &str, value: Option<Json>)
    ensures
        json::fields_view(final(fields)@) == json::fields_view(old(fields)@) + opt_field(
            key@,
            opt_json(value),
        ),
{
    let ghost before = json::fields_view(fields@);
    match value {
        Some(v) => {
            json::put(fields, key, v);
            assert(json::fields_view(fields@) =~= before + seq![(key@, v@)]);
        },
        None => {
            assert(json::fields_view(fields@) =~= before + Seq::<(Seq<char>, JsonView)>::empty());
        },
    }
}

/// Writes an error as a document.
pub fn error_to_json(e: &RpcError) -> (r: Json)
    ensures
        r@ == error_json(e@),
{
    let mut f = json::no_fields();
    let code = if e.code >= 0 {
        Json::Unsigned(e.code as u64)
    } else {
        Json::Negative(e.code)
    };
    json::put(&mut f, "code", code);
    json::put(&mut f, "message", Json::Str(e.message.clone()));
    let data = match &e.data {
        Some(d) => Some(d.clone()),
        None => None,
    };
    put_opt(&mut f, "data", data);
    assert(json::fields_view(f@) =~= error_json(e@)->Object_0);
    json::object(f)
}

/// Writes a daemon frame as a document.
pub fn frame_to_json(frame: &ServerFrame) -> (r: Json)
    ensures
        r@ == frame_json(frame@),
{
    match frame {
        ServerFrame::Event(e) => {
            let mut f = json::no_fields();
            json::put(&mut f, "frame", Json::of_str("event"));
            json::put(&mut f, "jsonrpc", Json::Str(e.jsonrpc.clone()));
            json::put(&mut f, "request_id", id_to_json(&e.request_id));
            json::put(&mut f, "event", Json::of_str(event_name(e.event)));
            json::put(&mut f, "data", e.data.clone());
            let run_id = match &e.run_id {
                Some(s) => Some(Json::Str(s.clone())),
                None => None,
            };
            put_opt(&mut f, "run_id", run_id);
            let seq = match e.seq {
                Some(n) => Some(Json::Unsigned(n)),
                None => None,
            };
            put_opt(&mut f, "seq", seq);
            assert(json::fields_view(f@) =~= event_json(e@)->Object_0);
            json::object(f)
        },
        ServerFrame::Response(p) => {
            let mut f = json::no_fields();
            json::put(&mut f, "frame", Json::of_str("response"));
            json::put(&mut f, "jsonrpc", Json::Str(p.jsonrpc.clone()));
            json::put(&mut f, "id", id_to_json(&p.id));
            let result = match &p.result {
                Some(d) => Some(d.clone()),
                None => None,
            };
            put_opt(&mut f, "result", result);
            let error = match &p.error {
                Some(e) => Some(error_to_json(e)),
                None => None,
            };
            put_opt(&mut f, "error", error);
            assert(json::fields_view(f@) =~= response_json(p@)->Object_0);
            json::object(f)
        },
    }
}

/// An optional field: a missing one and null both mean that there is no value.
pub open spec fn present(j: JsonView, key: Seq<char>) -> Option<JsonView> {
    match json::at_key(j, key) {
        JsonView::Null => None,
        v => Some(v),
    }
}

/// The error that a document carries: an object with these fields, or an array of all three
/// values in this order.
pub open spec fn json_error(j: JsonView) -> Option<RpcErrorView> {
    error_of(params::named(j, seq!["code"@, "message"@, "data"@], 3))
}

/// The error that an object carries.
pub open spec fn error_of(j: JsonView) -> Option<RpcErrorView> {
    match (json::at_key(j, "code"@), json::at_key(j, "message"@)) {
        (JsonView::Int(c), JsonView::Str(m)) => if i64::MIN <= c <= i64::MAX {
            Some(RpcErrorView { code: c as i64, message: m, data: present(j, "data"@) })
        } else {
            None
        },
        _ => None,
    }
}

/// The name of a kind of event: a text, or the only key of an object that holds nothing
/// under it.
pub open spec fn event_word(j: JsonView) -> Option<Seq<char>> {
    match j {
        JsonView::Str(s) => Some(s),
        JsonView::Object(f) => if f.len() == 1 && nothing(f[0].1) {
            Some(f[0].0)
        } else {
            None
        },
        _ => None,
    }
}

/// A document that holds nothing: null, or an object without fields.
pub open spec fn nothing(j: JsonView) -> bool {
    match j {
        JsonView::Null => true,
        JsonView::Object(f) => f.len() == 0,
        _ => false,
    }
}

/// The event that an object carries.
pub open spec fn json_event(j: JsonView) -> Option<EventView> {
    match (
        json::at_key(j, "jsonrpc"@),
        json_id(json::at_key(j, "request_id"@)),
        event_word(json::at_key(j, "event"@)),
        json::field(j, "data"@),
        present(j, "run_id"@),
        present(j, "seq"@),
    ) {
        (JsonView::Str(v), Some(id), Some(name), Some(data), run_id, seq) => if (
        exists|kind: EventKind| #[trigger] kind_name(kind) == name) && (run_id is Some
            ==> run_id->0 is Str) && (seq is Some ==> json::u64_of(seq->0) is Some) {
            Some(
                EventView {
                    jsonrpc: v,
                    request_id: id,
                    event: choose|kind: EventKind| #[trigger] kind_name(kind) == name,
                    data,
                    run_id: match run_id {
                        Some(s) => json::str_of(s),
                        None => None,
                    },
                    seq: match seq {
                        Some(n) => json::u64_of(n),
                        None => None,
                    },
                },
            )
        } else {
            None
        },
        _ => None,
    }
}

/// The reply that an object carries.
pub open spec fn json_response(j: JsonView) -> Option<ResponseView> {
    match (
        json::at_key(j, "jsonrpc"@),
        json_id(json::at_key(j, "id"@)),
        present(j, "error"@),
    ) {
        (JsonView::Str(v), Some(id), None) => Some(
            ResponseView { jsonrpc: v, id, result: present(j, "result"@), error: None },
        ),
        (JsonView::Str(v), Some(id), Some(e)) => match json_error(e) {
            Some(error) => Some(
                ResponseView {
                    jsonrpc: v,
                    id,
                    result: present(j, "result"@),
                    error: Some(error),
                },
            ),
            None => None,
        },
        _ => None,
    }
}

/// The tag of a daemon frame: a field of an object, or the first element of an array.
pub open spec fn frame_tag(j: JsonView) -> JsonView {
    match j {
        JsonView::Array(v) => if v.len() > 0 {
            v[0]
        } else {
            JsonView::Null
        },
        _ => json::at_key(j, "frame"@),
    }
}

/// The values of a daemon frame by their names: what follows the tag of an array is given in
/// the order of the names.
pub open spec fn frame_body(j: JsonView, names: Seq<Seq<char>>) -> JsonView {
    match j {
        JsonView::Array(v) => params::named(JsonView::Array(v.skip(1)), names, 4),
        _ => j,
    }
}

/// The values of an event, in order; the last two may be missing.
pub open spec fn event_names() -> Seq<Seq<char>> {
    seq!["jsonrpc"@, "request_id"@, "event"@, "data"@, "run_id"@, "seq"@]
}

/// The values of a reply, in order.
pub open spec fn response_names() -> Seq<Seq<char>> {
    seq!["jsonrpc"@, "id"@, "result"@, "error"@]
}

/// The daemon frame that a document carries: an object with a tag and the fields of its kind,
/// or an array of the tag and the values in order.
pub open spec fn json_frame(j: JsonView) -> Option<FrameView> {
    match frame_tag(j) {
        JsonView::Str(tag) => if tag == "event"@ {
            match json_event(frame_body(j, event_names())) {
                Some(e) => Some(FrameView::Event(e)),
                None => None,
            }
        } else if tag == "response"@ {
            match json_response(frame_body(j, response_names())) {
                Some(r) => Some(FrameView::Response(r)),
                None => None,
            }
        } else {
            None
        },
        _ => None,
    }
}

fn body_of(j: &Json, names: &[&'static str]) -> (r: Json)
    requires
        j@ is Array ==> j@->Array_0.len() > 0,
    ensures
        r@ == frame_body(j@, params::name_views(names@)),
{
    match j {
        Json::Array(v) => {
            proof {
                json::lemma_array_view(*v);
            }
            let ghost all = json::list_view(v@);
            let mut rest: Vec<Json> = Vec::new();
            let mut i: usize = 1;
            while i < v.len()
                invariant
                    1 <= i <= v@.len(),
                    all == json::list_view(v@),
                    rest@.len() == i - 1,
                    forall|k: int| 0 <= k < rest@.len() ==> (#[trigger] rest@[k])@ == all[k + 1],
                decreases v@.len() - i,
            {
                rest.push(v[i].clone());
                i = i + 1;
            }
            proof {
                json::lemma_array_view(rest);
                assert(json::list_view(rest@) =~= all.skip(1));
            }
            params::arrange(&Json::Array(rest), names, 4)
        },
        _ => j.clone(),
    }
}

fn present_field(j: &Json, key: &str) -> (r: Option<Json>)
    ensures
        opt_json(r) == present(j@, key@),
{
    match j.get(key) {
        Some(Json::Null) => None,
        Some(v) => Some(v.clone()),
        None => None,
    }
}

/// Reads an error from a document.
pub fn error_from_json(j: &Json) -> (r: Option<RpcError>)
    ensures
        opt_error(r) == json_error(j@),
{
    let names: [&'static str; 3] = ["code", "message", "data"];
    let arranged = params::arrange(j, &names, 3);
    assert(params::name_views(names@) =~= seq!["code"@, "message"@, "data"@]);
    let j = &arranged;
    let code: i64 = match j.get("code") {
        Some(Json::Unsigned(n)) => if *n <= i64::MAX as u64 {
            *n as i64
        } else {
            return None;
        },
        Some(Json::Negative(n)) => *n,
        _ => return None,
    };
    match j.str_at("message") {
        Some(m) => Some(
            RpcError { code, message: m.to_owned(), data: present_field(j, "data") },
        ),
        None => None,
    }
}

fn read_event_word(j: &Json) -> (r: Option<String>)
    ensures
        json::opt_text(r) == event_word(j@),
{
    match j {
        Json::Str(s) => Some(s.clone()),
        Json::Object(f) => {
            proof {
                json::lemma_object_view(*f);
            }
            if f.len() != 1 {
                return None;
            }
            assert(json::fields_view(f@)[0] == (f@[0].0@, f@[0].1@));
            let empty = match &f[0].1 {
                Json::Null => true,
                Json::Object(g) => {
                    proof {
                        json::lemma_object_view(*g);
                    }
                    g.len() == 0
                },
                _ => false,
            };
            if empty {
                Some(f[0].0.clone())
            } else {
                None
            }
        },
        _ => None,
    }
}

fn event_from_json(j: &Json) -> (r: Option<EventFrame>)
    ensures
        match r {
            Some(e) => json_event(j@) == Some(e@),
            None => json_event(j@) is None,
        },
{
    let jsonrpc = match j.str_at("jsonrpc") {
        Some(s) => s.to_owned(),
        None => return None,
    };
    let request_id = match j.get("request_id") {
        Some(v) => match id_from_json(v) {
            Some(id) => id,
            None => return None,
        },
        None => return None,
    };
    let word = match j.get("event") {
        Some(v) => read_event_word(v),
        None => return None,
    };
    let event = match &word {
        Some(s) => match event_from_name(s.as_str()) {
            Some(kind) => {
                proof {
                    let other = choose|k: EventKind| #[trigger] kind_name(k) == s@;
                    lemma_kind_names_differ(kind, other);
                }
                kind
            },
            None => return None,
        },
        None => return None,
    };
    let data = match j.get("data") {
        Some(v) => v.clone(),
        None => return None,
    };
    let run_id = match present_field(j, "run_id") {
        Some(Json::Str(s)) => Some(s),
        Some(_) => return None,
        None => None,
    };
    let seq = match present_field(j, "seq") {
        Some(v) => match v.as_u64() {
            Some(n) => Some(n),
            None => return None,
        },
        None => None,
    };
    Some(EventFrame { jsonrpc, request_id, event, data, run_id, seq })
}

fn response_from_json(j: &Json) -> (r: Option<JsonRpcResponse>)
    ensures
        match r {
            Some(p) => json_response(j@) == Some(p@),
            None => json_response(j@) is None,
        },
{
    let jsonrpc = match j.str_at("jsonrpc") {
        Some(s) => s.to_owned(),
        None => return None,
    };
    let id = match j.get("id") {
        Some(v) => match id_from_json(v) {
            Some(id) => id,
            None => return None,
        },
        None => return None,
    };
    let error = match present_field(j, "error") {
        Some(e) => match error_from_json(&e) {
            Some(error) => Some(error),
            None => return None,
        },
        None => None,
    };
    let result = present_field(j, "result");
    Some(JsonRpcResponse { jsonrpc, id, result, error })
}

/// Reads a daemon frame from a document.
pub fn frame_from_json(j: &Json) -> (r: Option<ServerFrame>)
    ensures
        match r {
            Some(f) => json_frame(j@) == Some(f@),
            None => json_frame(j@) is None,
        },
{
    proof {
        reveal_strlit("event");
        reveal_strlit("response");
    }
    let tag = match j {
        Json::Array(v) => {
            proof {
                json::lemma_array_view(*v);
            }
            if v.len() == 0 {
                return None;
            }
            v[0].as_str()
        },
        _ => j.str_at("frame"),
    };
    match tag {
        Some(tag) => if text::same(tag, "event") {
            let names: [&'static str; 6] = [
                "jsonrpc",
                "request_id",
                "event",
                "data",
                "run_id",
                "seq",
            ];
            let body = body_of(j, &names);
            assert(params::name_views(names@) =~= event_names());
            match event_from_json(&body) {
                Some(e) => Some(ServerFrame::Event(e)),
                None => None,
            }
        } else if text::same(tag, "response") {
            let names: [&'static str; 4] = ["jsonrpc", "id", "result", "error"];
            let body = body_of(j, &names);
            assert(params::name_views(names@) =~= response_names());
            match response_from_json(&body) {
                Some(p) => Some(ServerFrame::Response(p)),
                None => None,
            }
        } else {
            None
        },
        None => None,
    }
}

/// What was read of a daemon frame, or why it could not be.
pub open spec fn read_frame_view(r: Result<ServerFrame, String>) -> Result<FrameView, Seq<char>> {
    match r {
        Ok(f) => Ok(f@),
        Err(e) => Err(e@),
    }
}

/// What a client makes of a daemon frame of so many bytes that was read.
pub open spec fn frame_judged(size: nat, read: Result<FrameView, Seq<char>>) -> Result<
    FrameView,
    ProtocolErrorView,
> {
    if size > MAX_FRAME_BYTES {
        Err(ProtocolErrorView::FrameTooLarge(size))
    } else {
        match read {
            Err(e) => Err(ProtocolErrorView::InvalidJson(e)),
            Ok(f) => if frame_version(f) != JSONRPC_VERSION@ {
                Err(ProtocolErrorView::UnsupportedVersion(frame_version(f)))
            } else {
                Ok(f)
            },
        }
    }
}

/// The daemon frame that bytes carry, or why they carry none.
pub open spec fn bytes_frame(bytes: Seq<u8>) -> Result<FrameView, Seq<char>> {
    match json::json_parse_of(bytes) {
        Err(e) => Err(e),
        Ok(j) => match json_frame(j) {
            None => Err(SHAPE_ERROR@),
            Some(f) => Ok(f),
        },
    }
}

/// What a client makes of the bytes of a daemon frame.
pub open spec fn frame_outcome(bytes: Seq<u8>) -> Result<FrameView, ProtocolErrorView> {
    frame_judged(bytes.len(), bytes_frame(bytes))
}

/// Decides on a daemon frame of so many bytes, once it was read.
pub fn judge_frame(size: usize, read: Result<ServerFrame, String>) -> (r: Result<
    ServerFrame,
    ProtocolError,
>)
    ensures
        match r {
            Ok(f) => frame_judged(size as nat, read_frame_view(read)) == Ok::<
                FrameView,
                ProtocolErrorView,
            >(f@),
            Err(e) => frame_judged(size as nat, read_frame_view(read)) == Err::<
                FrameView,
                ProtocolErrorView,
            >(e@),
        },
        r matches Err(ProtocolError::FrameTooLarge { actual, limit }) ==> limit == MAX_FRAME_BYTES,
{
    if size > MAX_FRAME_BYTES {
        return Err(ProtocolError::FrameTooLarge { actual: size, limit: MAX_FRAME_BYTES });
    }
    match read {
        Err(e) => Err(ProtocolError::InvalidJson(e)),
        Ok(f) => {
            let version = match &f {
                ServerFrame::Event(e) => e.jsonrpc.clone(),
                ServerFrame::Response(p) => p.jsonrpc.clone(),
            };
            if !text::same(version.as_str(), JSONRPC_VERSION) {
                Err(ProtocolError::UnsupportedVersion(version))
            } else {
                Ok(f)
            }
        },
    }
}

/// Decodes a daemon frame. Where a field is named twice the last value stands, because that is
/// what `serde_json` keeps of a document.
pub fn decode_server_frame(bytes: &[u8]) -> (r: Result<ServerFrame, ProtocolError>)
    ensures
        match r {
            Ok(f) => frame_outcome(bytes@) == Ok::<FrameView, ProtocolErrorView>(f@),
            Err(e) => frame_outcome(bytes@) == Err::<FrameView, ProtocolErrorView>(e@),
        },
        r matches Err(ProtocolError::FrameTooLarge { actual, limit }) ==> limit == MAX_FRAME_BYTES,
{
    if bytes.len() > MAX_FRAME_BYTES {
        return Err(
            ProtocolError::FrameTooLarge { actual: bytes.len(), limit: MAX_FRAME_BYTES },
        );
    }
    let read = match json::parse_json(bytes) {
        Err(e) => Err(e),
        Ok(j) => match frame_from_json(&j) {
            None => Err(SHAPE_ERROR.to_owned()),
            Some(f) => Ok(f),
        },
    };
    judge_frame(bytes.len(), read)
}

/// Frames that keep everything on the wire. A null result, or null error data,
/// reads back as none.
pub open spec fn frame_keeps(f: FrameView) -> bool {
    match f {
        FrameView::Event(_) => true,
        FrameView::Response(r) => {
            &&& r.result != Some(JsonView::Null)
            &&& r.error is Some ==> r.error->0.data != Some(JsonView::Null)
        },
    }
}

proof fn lemma_error_document(e: RpcErrorView)
    requires
        e.data != Some(JsonView::Null),
    ensures
        json_error(error_json(e)) == Some(e),
{
    reveal_strlit("code");
    reveal_strlit("message");
    reveal_strlit("data");
    let j = error_json(e);
    assert("code"@.len() == 4 && "message"@.len() == 7 && "data"@.len() == 4);
    assert("code"@[0] == 'c' && "data"@[0] == 'd');
    json::lemma_field_at(j, "code"@, 0);
    json::lemma_field_at(j, "message"@, 1);
    match e.data {
        Some(d) => json::lemma_field_at(j, "data"@, 2),
        None => json::lemma_no_field(j, "data"@),
    }
}

proof fn lemma_response_document(r: ResponseView)
    requires
        frame_keeps(FrameView::Response(r)),
    ensures
        json_frame(response_json(r)) == Some(FrameView::Response(r)),
{
    reveal_strlit("frame");
    reveal_strlit("jsonrpc");
    reveal_strlit("id");
    reveal_strlit("result");
    reveal_strlit("error");
    reveal_strlit("event");
    reveal_strlit("response");
    let j = response_json(r);
    let f = j->Object_0;
    assert("frame"@.len() == 5 && "jsonrpc"@.len() == 7 && "id"@.len() == 2 && "result"@.len() == 6
        && "error"@.len() == 5 && "event"@.len() == 5 && "response"@.len() == 8);
    assert("frame"@[0] == 'f' && "error"@[0] == 'e');
    json::lemma_field_at(j, "frame"@, 0);
    json::lemma_field_at(j, "jsonrpc"@, 1);
    json::lemma_field_at(j, "id"@, 2);
    match r.result {
        Some(_) => json::lemma_field_at(j, "result"@, 3),
        None => json::lemma_no_field(j, "result"@),
    }
    match r.error {
        Some(e) => {
            lemma_error_document(e);
            json::lemma_field_at(j, "error"@, f.len() - 1);
        },
        None => json::lemma_no_field(j, "error"@),
    }
}

proof fn lemma_event_document(e: EventView)
    ensures
        json_frame(event_json(e)) == Some(FrameView::Event(e)),
{
    reveal_strlit("frame");
    reveal_strlit("jsonrpc");
    reveal_strlit("request_id");
    reveal_strlit("event");
    reveal_strlit("data");
    reveal_strlit("run_id");
    reveal_strlit("seq");
    let j = event_json(e);
    let f = j->Object_0;
    assert("frame"@.len() == 5 && "jsonrpc"@.len() == 7 && "request_id"@.len() == 10
        && "event"@.len() == 5 && "data"@.len() == 4 && "run_id"@.len() == 6 && "seq"@.len() == 3);
    assert("frame"@[0] == 'f' && "event"@[0] == 'e');
    json::lemma_field_at(j, "frame"@, 0);
    json::lemma_field_at(j, "jsonrpc"@, 1);
    json::lemma_field_at(j, "request_id"@, 2);
    json::lemma_field_at(j, "event"@, 3);
    json::lemma_field_at(j, "data"@, 4);
    match e.run_id {
        Some(_) => json::lemma_field_at(j, "run_id"@, 5),
        None => json::lemma_no_field(j, "run_id"@),
    }
    match e.seq {
        Some(_) => json::lemma_field_at(j, "seq"@, f.len() - 1),
        None => json::lemma_no_field(j, "seq"@),
    }
    let name = kind_name(e.event);
    let kind = choose|kind: EventKind| #[trigger] kind_name(kind) == name;
    lemma_kind_names_differ(kind, e.event);
}

/// A daemon frame is read back from its own document.
pub proof fn law_frame_document(f: FrameView)
    requires
        frame_keeps(f),
    ensures
        json_frame(frame_json(f)) == Some(f),
{
    match f {
        FrameView::Event(e) => lemma_event_document(e),
        FrameView::Response(r) => lemma_response_document(r),
    }
}

/// Encodes a daemon frame. It decodes to the same frame, request identifier
/// included, where its values are portable and the frame with its line feed is
/// no longer than what is accepted.
pub fn encode_server_frame(frame: &ServerFrame) -> (r: Result<Vec<u8>, ProtocolError>)
    ensures
        match r {
            Ok(bytes) => {
                &&& bytes@ == wire_bytes(frame_json(frame@)).push(10u8)
                &&& one_line(bytes@)
                &&& wire_bytes(frame_json(frame@)).len() <= MAX_FRAME_BYTES
                &&& json::portable(frame_json(frame@), json::MAX_JSON_DEPTH as nat)
                    && bytes@.len() <= MAX_FRAME_BYTES && frame_version(frame@) == JSONRPC_VERSION@
                    && frame_keeps(frame@) ==> frame_outcome(bytes@) == Ok::<
                    FrameView,
                    ProtocolErrorView,
                >(frame@)
            },
            Err(e) => wire_bytes(frame_json(frame@)).len() > MAX_FRAME_BYTES && (
            e matches ProtocolError::FrameTooLarge { actual, limit } && actual == wire_bytes(frame_json(frame@)).len()
                && limit == MAX_FRAME_BYTES),
        },
{
    let j = frame_to_json(frame);
    proof {
        if frame_keeps(frame@) {
            law_frame_document(frame@);
        }
    }
    encode_frame(&j)
}

/// An identifier is written as what it is, a number or a text, and read back.
pub proof fn law_identifiers_keep_their_kind(id: RequestIdView, other: RequestIdView)
    ensures
        json_id(id_json(id)) == Some(id),
        id is Number <==> id_json(id) is Int,
        id is Text <==> id_json(id) is Str,
        id_json(id) == id_json(other) ==> id == other,
{
}

/// A request on the wire has its version, its identifier, its method and its parameters,
/// each under its name.
pub proof fn law_request_reads_back(q: RequestView)
    ensures
        json::at_key(request_json(q), "jsonrpc"@) == JsonView::Str(q.jsonrpc),
        json::at_key(request_json(q), "id"@) == id_json(q.id),
        json::at_key(request_json(q), "method"@) == JsonView::Str(q.method),
        json::at_key(request_json(q), "params"@) == q.params,
{
    reveal_strlit("jsonrpc");
    reveal_strlit("id");
    reveal_strlit("method");
    reveal_strlit("params");
    assert("jsonrpc"@.len() == 7 && "id"@.len() == 2 && "method"@.len() == 6 && "params"@.len()
        == 6);
    assert("method"@[0] != "params"@[0]);
    json::lemma_field_at(request_json(q), "jsonrpc"@, 0);
    json::lemma_field_at(request_json(q), "id"@, 1);
    json::lemma_field_at(request_json(q), "method"@, 2);
    json::lemma_field_at(request_json(q), "params"@, 3);
}

/// An event on the wire names its request, its kind and what it carries, and its run and its
/// place where it has them.
pub proof fn law_event_reads_back(e: EventView)
    ensures
        json::at_key(event_json(e), "frame"@) == JsonView::Str("event"@),
        json::at_key(event_json(e), "jsonrpc"@) == JsonView::Str(e.jsonrpc),
        json::at_key(event_json(e), "request_id"@) == id_json(e.request_id),
        json::at_key(event_json(e), "event"@) == JsonView::Str(kind_name(e.event)),
        json::at_key(event_json(e), "data"@) == e.data,
        json::at_key(event_json(e), "run_id"@) == (match e.run_id {
            Some(s) => JsonView::Str(s),
            None => JsonView::Null,
        }),
        json::at_key(event_json(e), "seq"@) == (match e.seq {
            Some(n) => JsonView::Int(n as int),
            None => JsonView::Null,
        }),
{
    reveal_strlit("frame");
    reveal_strlit("jsonrpc");
    reveal_strlit("request_id");
    reveal_strlit("event");
    reveal_strlit("data");
    reveal_strlit("run_id");
    reveal_strlit("seq");
    assert("frame"@.len() == 5 && "jsonrpc"@.len() == 7 && "request_id"@.len() == 10
        && "event"@.len() == 5 && "data"@.len() == 4 && "run_id"@.len() == 6 && "seq"@.len() == 3);
    assert("frame"@[0] != "event"@[0]);
    let j = event_json(e);
    json::lemma_field_at(j, "frame"@, 0);
    json::lemma_field_at(j, "jsonrpc"@, 1);
    json::lemma_field_at(j, "request_id"@, 2);
    json::lemma_field_at(j, "event"@, 3);
    json::lemma_field_at(j, "data"@, 4);
    if e.run_id is Some {
        json::lemma_field_at(j, "run_id"@, 5);
    } else {
        json::lemma_no_field(j, "run_id"@);
    }
    if e.seq is Some {
        json::lemma_field_at(j, "seq"@, j->Object_0.len() - 1);
    } else {
        json::lemma_no_field(j, "seq"@);
    }
}

/// A reply on the wire names its request and has its result, or its error with code, message
/// and data.
pub proof fn law_response_reads_back(r: ResponseView)
    ensures
        json::at_key(response_json(r), "frame"@) == JsonView::Str("response"@),
        json::at_key(response_json(r), "jsonrpc"@) == JsonView::Str(r.jsonrpc),
        json::at_key(response_json(r), "id"@) == id_json(r.id),
        r.result is Some ==> json::at_key(response_json(r), "result"@) == r.result->0,
        r.result is None ==> json::field(response_json(r), "result"@) is None,
        r.error is None ==> json::field(response_json(r), "error"@) is None,
        r.error matches Some(e) ==> json::at_key(
            json::at_key(response_json(r), "error"@),
            "code"@,
        ) == JsonView::Int(e.code as int) && json::at_key(
            json::at_key(response_json(r), "error"@),
            "message"@,
        ) == JsonView::Str(e.message) && (e.data is Some ==> json::at_key(
            json::at_key(response_json(r), "error"@),
            "data"@,
        ) == e.data->0),
{
    reveal_strlit("frame");
    reveal_strlit("jsonrpc");
    reveal_strlit("id");
    reveal_strlit("result");
    reveal_strlit("error");
    reveal_strlit("code");
    reveal_strlit("message");
    reveal_strlit("data");
    assert("frame"@.len() == 5 && "jsonrpc"@.len() == 7 && "id"@.len() == 2 && "result"@.len() == 6
        && "error"@.len() == 5 && "code"@.len() == 4 && "message"@.len() == 7 && "data"@.len()
        == 4);
    assert("frame"@[0] != "error"@[0]);
    assert("code"@[0] != "data"@[0]);
    let j = response_json(r);
    json::lemma_field_at(j, "frame"@, 0);
    json::lemma_field_at(j, "jsonrpc"@, 1);
    json::lemma_field_at(j, "id"@, 2);
    if r.result is Some {
        json::lemma_field_at(j, "result"@, 3);
    } else {
        json::lemma_no_field(j, "result"@);
    }
    match r.error {
        Some(e) => {
            json::lemma_field_at(j, "error"@, j->Object_0.len() - 1);
            let d = error_json(e);
            json::lemma_field_at(d, "code"@, 0);
            json::lemma_field_at(d, "message"@, 1);
            if e.data is Some {
                json::lemma_field_at(d, "data"@, 2);
            }
        },
        None => json::lemma_no_field(j, "error"@),
    }
}

/// A reply answers the request it names and is a success or a failure, never both: a success
/// has the result, a failure the code, the message and the data it was given.
pub proof fn law_replies_are_success_or_failure(
    id: RequestIdView,
    result: JsonView,
    code: i64,
    message: Seq<char>,
)
    ensures
        success_view(id, result).id == id,
        success_view(id, result).result == Some(result),
        success_view(id, result).error is None,
        failure_view(id, code, message).id == id,
        failure_view(id, code, message).result is None,
        failure_view(id, code, message).error is Some,
        failure_view(id, code, message).error->0.code == code,
        failure_view(id, code, message).error->0.message == message,
        failure_view(id, code, message).error->0.data is None,
        failure_data_view(id, code, message, result).id == id,
        failure_data_view(id, code, message, result).result is None,
        failure_data_view(id, code, message, result).error is Some,
        failure_data_view(id, code, message, result).error->0.code == code,
        failure_data_view(id, code, message, result).error->0.message == message,
        failure_data_view(id, code, message, result).error->0.data == Some(result),
        success_view(id, result).jsonrpc == JSONRPC_VERSION@,
        failure_view(id, code, message).jsonrpc == JSONRPC_VERSION@,
{
}

/// A request is taken exactly where it is not too large, could be read and has the version
/// that is spoken, and then as it was read.
pub proof fn law_requests_are_judged(size: nat, read: Result<RequestView, Seq<char>>)
    ensures
        request_judged(size, read) is Ok <==> size <= MAX_FRAME_BYTES && read is Ok
            && read->Ok_0.jsonrpc == JSONRPC_VERSION@,
        request_judged(size, read) is Ok ==> request_judged(size, read)->Ok_0 == read->Ok_0,
        size > MAX_FRAME_BYTES ==> request_judged(size, read) == Err::<
            RequestView,
            ProtocolErrorView,
        >(ProtocolErrorView::FrameTooLarge(size)),
{
}

/// A request in an array stands for the one with the same values under their names; without
/// parameters they are null. Nothing but an object or an array of three or four is a request.
pub proof fn law_requests_in_arrays(j: JsonView, q: RequestView)
    ensures
        json_request(
            JsonView::Array(
                seq![
                    JsonView::Str(q.jsonrpc),
                    id_json(q.id),
                    JsonView::Str(q.method),
                    q.params,
                ],
            ),
        ) == Some(q),
        q.params is Null ==> json_request(
            JsonView::Array(
                seq![JsonView::Str(q.jsonrpc), id_json(q.id), JsonView::Str(q.method)],
            ),
        ) == Some(q),
        !(j is Object) && !(j is Array) ==> json_request(j) is None,
        j matches JsonView::Array(v) ==> v.len() < 3 || v.len() > 4 ==> json_request(j) is None,
{
    law_identifiers_keep_their_kind(q.id, q.id);
}

/// The kind of an event is read as its name, or as the only key over null or an empty object.
pub proof fn law_kinds_of_events_are_read(w: Seq<char>, j: JsonView)
    ensures
        event_word(JsonView::Str(w)) == Some(w),
        event_word(JsonView::Object(seq![(w, JsonView::Null)])) == Some(w),
        event_word(JsonView::Object(seq![(w, JsonView::Object(Seq::empty()))])) == Some(w),
        !(j is Object) && !(j is Str) ==> event_word(j) is None,
        j matches JsonView::Object(f) ==> f.len() != 1 ==> event_word(j) is None,
        j matches JsonView::Object(f) ==> f.len() == 1 && !(f[0].1 is Null) && !(
        f[0].1 is Object) ==> event_word(j) is None,
        j matches JsonView::Object(f) ==> f.len() == 1 && f[0].1 is Object
            && f[0].1->Object_0.len() > 0 ==> event_word(j) is None,
{
}

} // verus!
