use my_agent::daemon::pages::{
    bounded_json_page, clamp_limit, compact_json_for_web, truncate_json_strings, unreadable_record,
    WEB_PAGE_MAX_BYTES,
};
use my_agent::daemon::protocol::{
    decode_request, decode_server_frame, encode_frame, encode_request, encode_server_frame,
    event_from_name, event_name, frame_to_json, judge_frame, judge_request, server_frame_request_id, EventFrame, EventKind,
    JsonRpcRequest, JsonRpcResponse, ProtocolError, RequestId, ServerFrame, MAX_FRAME_BYTES,
    SHAPE_ERROR,
};
use my_agent::daemon::server::{judge_line, read_line, write_frame};
use my_agent::json::Json;

fn object(fields: Vec<(&str, Json)>) -> Json {
    Json::Object(fields.into_iter().map(|(k, v)| (k.to_owned(), v)).collect())
}

fn text(s: &str) -> Json {
    Json::Str(s.to_owned())
}

fn shown(j: &Json) -> String {
    format!("{j:?}")
}

#[test]
fn request_round_trip_uses_newline_delimited_json() {
    let request = JsonRpcRequest::new(
        RequestId::Number(7),
        "chat.send",
        object(vec![("message", text("你好"))]),
    );
    let encoded = encode_request(&request).unwrap();
    assert_eq!(encoded.last(), Some(&b'\n'));
    let decoded = decode_request(&encoded).unwrap();
    assert_eq!(decoded.jsonrpc, request.jsonrpc);
    assert_eq!(decoded.id, request.id);
    assert_eq!(decoded.method, request.method);
    assert_eq!(shown(&decoded.params), shown(&request.params));
}

#[test]
fn server_frame_round_trip_preserves_request_id() {
    let response = ServerFrame::Response(JsonRpcResponse::success(
        RequestId::String("abc".to_owned()),
        object(vec![("ok", Json::Bool(true))]),
    ));
    let encoded = encode_server_frame(&response).unwrap();
    let decoded = decode_server_frame(&encoded).unwrap();
    assert_eq!(shown(&frame_to_json(&decoded)), shown(&frame_to_json(&response)));
    assert_eq!(server_frame_request_id(&decoded), &RequestId::String("abc".to_owned()));
}

#[test]
fn rejects_oversized_frames() {
    let oversized = vec![b'x'; MAX_FRAME_BYTES + 1];
    assert!(matches!(
        decode_request(&oversized),
        Err(ProtocolError::FrameTooLarge { .. })
    ));
}

#[test]
fn bounds_large_web_pages_and_marks_oversized_content() {
    let content = "x".repeat(300 * 1024);
    let messages = (0..80)
        .map(|_| object(vec![("role", text("tool")), ("content", text(&content))]))
        .collect::<Vec<Json>>();
    let (items, has_more) = bounded_json_page(&messages, 0, 80, "消息过大，已截断");
    let count = items.len();
    let role = items[0].str_at("role").unwrap().to_owned();
    let said = items[0].str_at("content").unwrap().to_owned();
    let encoded = encode_frame(&Json::Array(items.clone())).unwrap();
    assert!(encoded.len() <= WEB_PAGE_MAX_BYTES + 1);
    let frame = encode_server_frame(&ServerFrame::Response(JsonRpcResponse::success(
        RequestId::Number(1),
        object(vec![("messages", Json::Array(items))]),
    )))
    .unwrap();
    assert!(frame.len() <= MAX_FRAME_BYTES + 1);
    assert!(has_more);
    assert!(count < 80);
    assert_eq!(role, "tool");
    assert!(said.contains("已截断"));
}

#[test]
fn pages_start_and_end_where_they_are_asked_to() {
    let items = (0..5u64).map(Json::Unsigned).collect::<Vec<Json>>();
    let (page, more) = bounded_json_page(&items, 1, 2, "大");
    assert_eq!(shown(&Json::Array(page)), shown(&Json::Array(vec![Json::Unsigned(1), Json::Unsigned(2)])));
    assert!(more);
    let (page, more) = bounded_json_page(&items, 3, 9, "大");
    assert_eq!(page.len(), 2);
    assert!(!more);
    let (page, more) = bounded_json_page(&items, 9, 9, "大");
    assert!(page.is_empty());
    assert!(!more);
    assert_eq!(clamp_limit(0), 1);
    assert_eq!(clamp_limit(50), 50);
    assert_eq!(clamp_limit(1_000), 200);
    assert_eq!(unreadable_record().bool_at("truncated"), Some(true));
}

#[test]
fn long_strings_are_cut_at_every_depth() {
    let nested = object(vec![("a", Json::Array(vec![text("中文中文中文中文中文")]))]);
    let cut = truncate_json_strings(&nested, 9);
    assert!(shown(&cut).contains("已截断"));
    assert_eq!(shown(&truncate_json_strings(&nested, 10)), shown(&nested));
    let small = object(vec![("a", Json::Unsigned(1))]);
    assert_eq!(shown(&compact_json_for_web(small.clone(), 1_000, "大")), shown(&small));
}

#[test]
fn frames_that_cannot_be_read_are_told_apart() {
    assert!(matches!(decode_request(b"{"), Err(ProtocolError::InvalidJson(_))));
    assert!(matches!(
        decode_request(b"{\"jsonrpc\":\"2.0\"}"),
        Err(ProtocolError::InvalidJson(e)) if e == SHAPE_ERROR
    ));
    match decode_request(b"{\"jsonrpc\":\"1.0\",\"id\":1,\"method\":\"m\",\"params\":{}}") {
        Err(ProtocolError::UnsupportedVersion(version)) => assert_eq!(version, "1.0"),
        other => panic!("{other:?}"),
    }
    assert!(decode_request(b"{\"jsonrpc\":\"2.0\",\"id\":\"a\",\"method\":\"m\"}").is_ok());
    assert!(decode_server_frame(b"{\"type\":\"other\"}").is_err());
}

#[test]
fn a_frame_that_is_too_large_to_send_is_refused() {
    let large = Json::Str("x".repeat(MAX_FRAME_BYTES));
    match encode_frame(&large) {
        Err(ProtocolError::FrameTooLarge { actual, limit }) => {
            assert_eq!(actual, MAX_FRAME_BYTES + 2);
            assert_eq!(limit, MAX_FRAME_BYTES);
        }
        other => panic!("{other:?}"),
    }
    let frame = ServerFrame::Response(JsonRpcResponse::success(RequestId::Number(4), large));
    let instead = decode_server_frame(&write_frame(&frame).unwrap()).unwrap();
    match instead {
        ServerFrame::Response(response) => {
            assert_eq!(response.id, RequestId::Number(4));
            assert!(response.error.is_some());
        }
        other => panic!("{other:?}"),
    }
}

#[test]
fn every_event_has_a_name_of_its_own() {
    let kinds = [
        EventKind::TurnStarted,
        EventKind::ThinkingDelta,
        EventKind::ThinkingFinished,
        EventKind::TextDelta,
        EventKind::ToolStarted,
        EventKind::ToolFinished,
        EventKind::ApprovalRequired,
        EventKind::TurnCompleted,
    ];
    for kind in kinds {
        assert!(event_from_name(event_name(kind)) == Some(kind));
    }
    assert_eq!(event_name(EventKind::ApprovalRequired), "approval_required");
    assert!(event_from_name("other").is_none());
}

#[test]
fn an_event_is_read_back_with_its_place() {
    let mut event = EventFrame::new(RequestId::Number(3), EventKind::TextDelta, object(vec![]));
    event.run_id = Some("run".to_owned());
    event.seq = Some(9);
    let frame = ServerFrame::Event(event);
    let read = decode_server_frame(&encode_server_frame(&frame).unwrap()).unwrap();
    match read {
        ServerFrame::Event(e) => {
            assert_eq!(e.run_id.as_deref(), Some("run"));
            assert_eq!(e.seq, Some(9));
        }
        other => panic!("{other:?}"),
    }
}

#[test]
fn lines_are_read_as_requests_or_refused() {
    assert!(read_line(b"{\"jsonrpc\":\"2.0\",\"id\":1,\"method\":\"m\",\"params\":{}}\n").is_ok());
    let code = |line: &[u8]| match read_line(line) {
        Err(ServerFrame::Response(r)) => r.error.unwrap().code,
        other => panic!("{other:?}"),
    };
    assert_eq!(code(b"x"), -32700);
    assert_eq!(code(&vec![b'x'; MAX_FRAME_BYTES + 2]), -32002);
}

#[test]
fn a_frame_is_one_line() {
    let params = object(vec![("text", text("a\nb\r\n中")), ("$ref", Json::Unsigned(1))]);
    let request = JsonRpcRequest::new(RequestId::Number(1), "m", params);
    let encoded = encode_request(&request).unwrap();
    assert_eq!(encoded.iter().filter(|byte| **byte == b'\n').count(), 1);
    let decoded = decode_request(&encoded).unwrap();
    assert_eq!(shown(&decoded.params), shown(&request.params));

    let first = object(vec![("$ref", Json::Unsigned(1)), ("x", Json::Null)]);
    let request = JsonRpcRequest::new(RequestId::Number(1), "m", first);
    let decoded = decode_request(&encode_request(&request).unwrap()).unwrap();
    assert_eq!(shown(&decoded.params), shown(&request.params));

    let frame = ServerFrame::Response(JsonRpcResponse::success(RequestId::Number(1), text("\n\n")));
    let encoded = encode_server_frame(&frame).unwrap();
    assert_eq!(encoded.iter().filter(|byte| **byte == b'\n').count(), 1);
}

#[test]
fn frames_may_come_as_lists() {
    let event = |line: &[u8]| match decode_server_frame(line) {
        Ok(ServerFrame::Event(e)) => e,
        other => panic!("{other:?}"),
    };
    let e = event(b"[\"event\",\"2.0\",7,\"text_delta\",{\"delta\":\"a\"}]");
    assert_eq!(e.request_id, RequestId::Number(7));
    assert_eq!(e.event, EventKind::TextDelta);
    assert_eq!(e.data.str_at("delta"), Some("a"));
    assert!(e.run_id.is_none() && e.seq.is_none());
    let e = event(b"[\"event\",\"2.0\",7,\"text_delta\",null,\"run-1\",3]");
    assert_eq!((e.run_id.as_deref(), e.seq), (Some("run-1"), Some(3)));
    match decode_server_frame(b"[\"response\",\"2.0\",\"a\",null,[-32600,\"no\",null]]") {
        Ok(ServerFrame::Response(r)) => {
            assert_eq!(r.id, RequestId::String("a".to_owned()));
            assert!(r.result.is_none());
            let error = r.error.unwrap();
            assert_eq!((error.code, error.message.as_str()), (-32600, "no"));
            assert!(error.data.is_none());
        }
        other => panic!("{other:?}"),
    }
    for line in [
        &b"[]"[..],
        b"[\"event\"]",
        b"[\"event\",\"2.0\",7,\"text_delta\"]",
        b"[\"event\",\"2.0\",7,\"text_delta\",null,\"r\",3,4]",
        b"[\"response\",\"2.0\",\"a\",null]",
        b"[\"response\",\"2.0\",\"a\",null,[-1,\"no\"]]",
        b"[\"other\",\"2.0\",\"a\",null,null]",
    ] {
        assert!(decode_server_frame(line).is_err());
    }
}

#[test]
fn an_error_of_a_reply_may_come_as_a_list() {
    let line = b"{\"frame\":\"response\",\"jsonrpc\":\"2.0\",\"id\":1,\"error\":[5,\"e\",{\"x\":1}]}";
    match decode_server_frame(line) {
        Ok(ServerFrame::Response(r)) => {
            let error = r.error.unwrap();
            assert_eq!(error.code, 5);
            assert!(error.data.unwrap().get("x").is_some());
        }
        other => panic!("{other:?}"),
    }
}

#[test]
fn a_kind_of_event_may_be_the_key_of_nothing() {
    let frame = |event: &str| {
        let line = format!(
            "{{\"frame\":\"event\",\"jsonrpc\":\"2.0\",\"request_id\":1,\"event\":{event},\"data\":null}}"
        );
        decode_server_frame(line.as_bytes())
    };
    for event in ["\"tool_started\"", "{\"tool_started\":null}", "{\"tool_started\":{}}"] {
        match frame(event) {
            Ok(ServerFrame::Event(e)) => assert_eq!(e.event, EventKind::ToolStarted),
            other => panic!("{other:?}"),
        }
    }
    for event in ["{}", "{\"tool_started\":1}", "{\"tool_started\":null,\"x\":null}", "3"] {
        assert!(frame(event).is_err());
    }
}

#[test]
fn what_was_read_elsewhere_is_judged_alike() {
    let request = || JsonRpcRequest::new(RequestId::Number(1), "m", Json::Null);
    assert_eq!(judge_request(10, Ok(request())).unwrap().method, "m");
    match judge_request(10, Err("duplicate field `id`".to_owned())) {
        Err(error) => assert_eq!(error.message(), "JSON-RPC 帧不是合法 JSON: duplicate field `id`"),
        other => panic!("{other:?}"),
    }
    assert!(matches!(
        judge_request(MAX_FRAME_BYTES + 1, Ok(request())),
        Err(ProtocolError::FrameTooLarge { .. })
    ));
    let mut old = request();
    old.jsonrpc = "1.0".to_owned();
    assert!(matches!(judge_request(10, Ok(old)), Err(ProtocolError::UnsupportedVersion(_))));
    assert!(judge_line(10, Ok(request())).is_ok());
    assert!(judge_line(10, Err("x".to_owned())).is_err());
    assert!(judge_line(MAX_FRAME_BYTES + 2, Ok(request())).is_err());
    let frame = ServerFrame::Response(JsonRpcResponse::success(RequestId::Number(1), Json::Null));
    assert!(judge_frame(10, Ok(frame)).is_ok());
    assert!(matches!(
        judge_frame(10, Err("x".to_owned())),
        Err(ProtocolError::InvalidJson(_))
    ));
}

#[test]
fn keys_of_a_document_are_ordinary_but_for_one() {
    let sent = |key: &str| {
        let params = object(vec![(key, text("1")), ("x", Json::Null)]);
        let request = JsonRpcRequest::new(RequestId::Number(1), "m", params);
        let decoded = decode_request(&encode_request(&request).unwrap());
        decoded.map(|q| shown(&q.params) == shown(&request.params)).unwrap_or(false)
    };
    assert!(sent("$serde_json::private::Number"));
    assert!(sent("$ref"));
    assert!(!sent("$serde_json::private::RawValue"));
}
