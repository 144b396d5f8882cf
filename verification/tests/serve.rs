use my_agent::config::{ConfigFile, ConfigStore};
use my_agent::daemon::approval::PendingApprovalInfo;
use my_agent::daemon::protocol::{
    decode_request, decode_server_frame, EventFrame, EventKind, JsonRpcRequest, JsonRpcResponse,
    RequestId, ServerFrame, MAX_FRAME_BYTES,
};
use my_agent::entry::ids::IdMap;
use my_agent::entry::serve::{
    active_model, api_error, api_token, candidate_path, check_bind, check_completion,
    collect_answer, completion, completion_id, connect, connected, control_error, deny_failed,
    directory_listing, extract_latest_user_prompt, health, is_authorized, model_activated,
    model_applied, model_saved, not_forwarded, recovery_error, recovery_frames, refuse_text,
    remap_frame_id, start_websocket_request, token_matches, unreachable_place,
    web_models, websocket_origin_allowed, ws_server_frame, AnswerStep, CompletionStream, ConnectStep,
    Directory, FirstFrame, OpenAiMessage, Status, StreamStep, StreamTurn,
};
use my_agent::json::Json;
use my_agent::provider::{ApiType, ProviderProfile};

fn object(fields: Vec<(&str, Json)>) -> Json {
    Json::Object(fields.into_iter().map(|(key, value)| (key.to_owned(), value)).collect())
}

fn text(s: &str) -> Json {
    Json::Str(s.to_owned())
}

fn user(content: Json) -> OpenAiMessage {
    OpenAiMessage { role: "user".to_owned(), content }
}

fn part(kind: &str, key: &str, value: Json) -> Json {
    object(vec![("type", text(kind)), (key, value)])
}

fn event(kind: EventKind, data: Json) -> ServerFrame {
    ServerFrame::Event(EventFrame::new(RequestId::Number(1), kind, data))
}

fn asked(id: &str) -> Json {
    object(vec![("approval", object(vec![("id", text(id)), ("prompt", text("?"))]))])
}

fn same(a: &Json, b: &Json) -> bool {
    format!("{a:?}") == format!("{b:?}")
}

#[test]
fn extracts_latest_string_or_content_parts() {
    let messages = vec![
        user(text("旧问题")),
        OpenAiMessage { role: "assistant".to_owned(), content: text("旧回答") },
        user(Json::Array(vec![
            part("text", "text", text("第一段")),
            part("image_url", "image_url", object(vec![("url", text("ignored"))])),
            part("text", "text", text("第二段")),
        ])),
    ];

    assert_eq!(
        extract_latest_user_prompt(&messages).as_deref(),
        Some("第一段\n第二段")
    );
}

#[test]
fn blank_messages_are_passed_over() {
    let messages = vec![user(text("问题")), user(text("  ")), user(Json::Null)];
    assert_eq!(extract_latest_user_prompt(&messages).as_deref(), Some("问题"));
    assert_eq!(extract_latest_user_prompt(&Vec::new()), None);
}

#[test]
fn bearer_auth_is_only_enforced_when_configured() {
    assert!(is_authorized(None, None));
    assert!(!is_authorized(None, Some("secret")));
    assert!(is_authorized(Some("Bearer secret"), Some("secret")));
}

#[test]
fn other_tokens_do_not_open() {
    assert!(!is_authorized(Some("secret"), Some("secret")));
    assert!(!is_authorized(Some("Bearer other"), Some("secret")));
    assert!(token_matches(None, None));
    assert!(token_matches(Some("x"), None));
    assert!(!token_matches(Some("x"), Some("y")));
}

#[test]
fn websocket_origin_must_match_the_host_when_present() {
    assert!(websocket_origin_allowed(None, None));
    assert!(websocket_origin_allowed(Some("http://127.0.0.1:8787"), Some("127.0.0.1:8787")));
    assert!(!websocket_origin_allowed(Some("https://example.com"), Some("127.0.0.1:8787")));
}

#[test]
fn an_origin_needs_a_host_and_a_scheme() {
    assert!(!websocket_origin_allowed(Some("http://a"), None));
    assert!(!websocket_origin_allowed(Some("ftp://a"), Some("a")));
    assert!(websocket_origin_allowed(Some("https://Example.COM/page"), Some("example.com")));
}

#[test]
fn directory_listing_only_returns_directories() {
    let listing = directory_listing(
        "/root",
        Some("/"),
        vec![
            Directory { name: "beta".to_owned(), path: "/root/beta".to_owned() },
            Directory { name: "Alpha".to_owned(), path: "/root/Alpha".to_owned() },
            Directory { name: "Ärger".to_owned(), path: "/root/Ärger".to_owned() },
            Directory { name: "ärger".to_owned(), path: "/root/ärger".to_owned() },
        ],
        "/work",
        Some("/home/me"),
    );
    let names = match listing.get("directories") {
        Some(Json::Array(items)) => items
            .iter()
            .filter_map(|item| item.str_at("name"))
            .collect::<Vec<&str>>(),
        other => panic!("{other:?}"),
    };
    assert_eq!(names, vec!["Alpha", "beta", "Ärger", "ärger"]);
    assert_eq!(listing.str_at("path"), Some("/root"));
    assert_eq!(listing.str_at("parent"), Some("/"));
    assert!(same(
        listing.get("favorites").unwrap(),
        &Json::Array(vec![text("/work"), text("/home/me")])
    ));
}

#[test]
fn the_home_is_offered_once() {
    let listing = directory_listing("/work", None, Vec::new(), "/work", Some("/work/"));
    assert!(same(listing.get("favorites").unwrap(), &Json::Array(vec![text("/work")])));
    assert!(same(listing.get("parent").unwrap(), &Json::Null));
}

#[test]
fn places_are_taken_below_the_usual_one() {
    assert_eq!(candidate_path(Some("/x"), "/work"), "/x");
    assert_eq!(candidate_path(Some("x"), "/work"), "/work/x");
    assert_eq!(candidate_path(Some("x"), "/"), "/x");
    assert_eq!(candidate_path(None, "/work"), "/work");
}

#[test]
fn a_completion_is_checked_before_it_is_sent() {
    let messages = vec![user(text("你好"))];
    assert_eq!(check_completion(true, None, "m", &messages), Ok("你好".to_owned()));
    assert_eq!(check_completion(true, Some("m"), "m", &messages), Ok("你好".to_owned()));
    assert_eq!(
        check_completion(true, Some("x"), "m", &messages),
        Err((Status::BadRequest, "当前 daemon 模型为 m，不支持请求模型 x".to_owned()))
    );
    assert_eq!(
        check_completion(false, None, "m", &messages),
        Err((Status::Unauthorized, "Bearer Token 无效或缺失".to_owned()))
    );
    assert_eq!(
        check_completion(true, None, "m", &Vec::new()),
        Err((Status::BadRequest, "messages 中缺少非空 user 消息".to_owned()))
    );
}

#[test]
fn statuses_have_their_numbers() {
    assert_eq!(Status::BadRequest.code(), 400);
    assert_eq!(Status::Unauthorized.code(), 401);
    assert_eq!(Status::Forbidden.code(), 403);
    assert_eq!(Status::Conflict.code(), 409);
    assert_eq!(Status::InternalServerError.code(), 500);
    assert_eq!(Status::BadGateway.code(), 502);
}

#[test]
fn a_completion_is_streamed_to_its_end() {
    let id = completion_id(&RequestId::String("r".to_owned()));
    assert_eq!(id, "chatcmpl-r");
    let mut stream = CompletionStream::new("m".to_owned(), id, 5);
    assert_eq!(stream.next(), StreamTurn::Frame);
    match stream.on_frame(&event(EventKind::TextDelta, object(vec![("delta", text("好"))]))) {
        StreamStep::Send(data) => assert_eq!(
            data,
            "{\"id\":\"chatcmpl-r\",\"object\":\"chat.completion.chunk\",\"created\":5,\"model\":\"m\",\"choices\":[{\"index\":0,\"delta\":{\"content\":\"好\"},\"finish_reason\":null}]}"
        ),
        other => panic!("{other:?}"),
    }
    assert!(matches!(
        stream.on_frame(&event(EventKind::ToolStarted, object(vec![]))),
        StreamStep::Nothing
    ));
    match stream.on_frame(&event(EventKind::ApprovalRequired, asked("q"))) {
        StreamStep::Deny(question) => assert_eq!(question, "q"),
        other => panic!("{other:?}"),
    }
    assert_eq!(stream.next(), StreamTurn::Frame);
    let reply = ServerFrame::Response(JsonRpcResponse::success(RequestId::Number(1), Json::Null));
    match stream.on_frame(&reply) {
        StreamStep::Send(data) => assert!(data.contains("\"finish_reason\":\"stop\"")),
        other => panic!("{other:?}"),
    }
    assert_eq!(stream.next(), StreamTurn::Mark);
    assert_eq!(stream.next(), StreamTurn::End);
}

#[test]
fn a_completion_that_fails_says_why() {
    let mut stream = CompletionStream::new("m".to_owned(), "i".to_owned(), 0);
    assert_eq!(stream.on_failure("断开"), "{\"error\":{\"message\":\"断开\"}}");
    assert_eq!(stream.next(), StreamTurn::Mark);
    let mut stream = CompletionStream::new("m".to_owned(), "i".to_owned(), 0);
    let reply = ServerFrame::Response(JsonRpcResponse::failure(RequestId::Number(1), -32603, "x"));
    match stream.on_frame(&reply) {
        StreamStep::Send(data) => {
            assert_eq!(data, "{\"error\":{\"code\":-32603,\"message\":\"x\"}}")
        }
        other => panic!("{other:?}"),
    }
    let mut stream = CompletionStream::new("m".to_owned(), "i".to_owned(), 0);
    match stream.on_frame(&event(EventKind::ApprovalRequired, object(vec![]))) {
        StreamStep::Send(data) => assert!(data.contains("审批事件缺少 id")),
        other => panic!("{other:?}"),
    }
    assert_eq!(deny_failed("x"), "自动拒绝 HTTP 审批失败: x");
}

#[test]
fn a_whole_answer_is_collected() {
    let reply = ServerFrame::Response(JsonRpcResponse::success(
        RequestId::Number(1),
        object(vec![("content", text("答"))]),
    ));
    assert!(matches!(collect_answer(&reply), AnswerStep::Done(Ok(s)) if s == "答"));
    let empty = ServerFrame::Response(JsonRpcResponse::success(RequestId::Number(1), Json::Null));
    assert!(matches!(collect_answer(&empty), AnswerStep::Done(Err(e)) if e == "daemon 响应缺少 content"));
    let failed = ServerFrame::Response(JsonRpcResponse::failure(RequestId::Number(1), -1, "x"));
    assert!(matches!(collect_answer(&failed), AnswerStep::Done(Err(e)) if e == "daemon RPC -1: x"));
    assert!(matches!(
        collect_answer(&event(EventKind::ApprovalRequired, asked("q"))),
        AnswerStep::Deny(id) if id == "q"
    ));
    assert!(matches!(
        collect_answer(&event(EventKind::ApprovalRequired, Json::Null)),
        AnswerStep::Done(Err(_))
    ));
    assert!(matches!(
        collect_answer(&event(EventKind::TextDelta, Json::Null)),
        AnswerStep::Nothing
    ));
    let whole = completion("i", 1, "m", "答");
    assert_eq!(whole.str_at("object"), Some("chat.completion"));
    let body = api_error("坏");
    assert_eq!(body.get("error").unwrap().str_at("type"), Some("my_agent_error"));
}

#[test]
fn a_socket_needs_a_first_frame() {
    let required = Some("test-token");
    assert!(matches!(connect(FirstFrame::Gone, required), ConnectStep::Leave));
    let refused = |frame: FirstFrame| match connect(frame, required) {
        ConnectStep::Refuse(why) => why,
        other => panic!("{other:?}"),
    };
    assert_eq!(refused(FirstFrame::Other), "第一帧必须是文本 connect 帧");
    assert_eq!(
        refused(FirstFrame::Text("x".repeat(MAX_FRAME_BYTES + 1))),
        "第一帧必须是文本 connect 帧"
    );
    assert_eq!(refused(FirstFrame::Text("{".to_owned())), "第一帧必须是合法 connect 帧");
    assert_eq!(
        refused(FirstFrame::Text("{\"type\":\"hello\"}".to_owned())),
        "第一帧必须是合法 connect 帧"
    );
    assert_eq!(
        refused(FirstFrame::Text("{\"type\":\"connect\",\"token\":\"wrong\"}".to_owned())),
        "Token 无效或缺失"
    );
    let frame = "{\"type\":\"connect\",\"token\":\"test-token\",\"workspace\":\"/w\"}";
    match connect(FirstFrame::Text(frame.to_owned()), required) {
        ConnectStep::Connect { workspace } => assert_eq!(workspace.as_deref(), Some("/w")),
        other => panic!("{other:?}"),
    }
    assert!(matches!(
        connect(FirstFrame::Text("{\"type\":\"connect\"}".to_owned()), None),
        ConnectStep::Connect { workspace: None }
    ));
}

#[test]
fn a_socket_is_told_how_it_stands() {
    assert_eq!(
        connected("/w"),
        "{\"type\":\"connected\",\"protocol\":\"my-agent-jsonrpc\",\"version\":1,\"workspace\":\"/w\"}"
    );
    assert_eq!(control_error("x"), "{\"type\":\"error\",\"error\":\"x\"}");
    assert_eq!(recovery_error("x"), "{\"type\":\"recovery_error\",\"error\":\"x\"}");
    assert_eq!(unreachable_place("x"), "无法连接所选工作目录：x");
}

#[test]
fn a_text_that_is_no_request_is_refused() {
    let error = decode_request(b"{").unwrap_err();
    match refuse_text("{", &error) {
        ServerFrame::Response(response) => {
            let e = response.error.unwrap();
            assert_eq!(e.code, -32700);
            assert!(e.message.starts_with("JSON-RPC 帧不是合法 JSON: "));
            assert_eq!(response.id, RequestId::String("protocol".to_owned()));
        }
        other => panic!("{other:?}"),
    }
    let long = "x".repeat(MAX_FRAME_BYTES + 1);
    let error = decode_request(long.as_bytes()).unwrap_err();
    match refuse_text(&long, &error) {
        ServerFrame::Response(response) => assert_eq!(response.error.unwrap().code, -32002),
        other => panic!("{other:?}"),
    }
}

#[test]
fn the_name_of_a_request_to_stop_is_changed() {
    let outside = RequestId::String("web-chat".to_owned());
    let inside = RequestId::Number(12);
    let mut known = IdMap::new();
    known.insert(outside.clone(), RequestId::Number(1));
    known.insert(outside.clone(), inside.clone());
    let request = JsonRpcRequest::new(
        RequestId::Number(3),
        "agent.cancel",
        object(vec![("request_id", text("web-chat")), ("session_id", text("s"))]),
    );
    let forwarded = start_websocket_request(request, &known);
    assert!(!forwarded.is_chat);
    assert_eq!(forwarded.params.u64_at("request_id"), Some(12));
    assert_eq!(forwarded.params.str_at("session_id"), Some("s"));

    known.remove(&outside);
    assert_eq!(known.get(&outside), None);
    let request = JsonRpcRequest::new(
        RequestId::Number(3),
        "agent.cancel",
        object(vec![("request_id", text("web-chat"))]),
    );
    assert_eq!(start_websocket_request(request, &known).params.str_at("request_id"), Some("web-chat"));
    let chat = JsonRpcRequest::new(RequestId::Number(4), "chat.send", Json::Null);
    assert!(start_websocket_request(chat, &known).is_chat);
}

#[test]
fn frames_bear_the_name_outside() {
    let outside = RequestId::String("web".to_owned());
    let renamed = remap_frame_id(event(EventKind::TextDelta, Json::Null), &outside);
    let message = ws_server_frame(&renamed);
    match decode_server_frame(message.as_bytes()).unwrap() {
        ServerFrame::Event(e) => assert_eq!(e.request_id, outside),
        other => panic!("{other:?}"),
    }
    match not_forwarded(outside.clone(), "不可用") {
        ServerFrame::Response(r) => {
            assert_eq!(r.id, outside);
            assert_eq!(r.error.unwrap().code, -32000);
        }
        other => panic!("{other:?}"),
    }
}

#[test]
fn a_frame_that_is_too_large_is_replaced() {
    let reply = ServerFrame::Response(JsonRpcResponse::success(
        RequestId::Number(9),
        text(&"x".repeat(MAX_FRAME_BYTES)),
    ));
    let message = ws_server_frame(&reply);
    assert!(message.len() < 200);
    match decode_server_frame(message.as_bytes()).unwrap() {
        ServerFrame::Response(r) => {
            assert_eq!(r.id, RequestId::Number(9));
            assert_eq!(r.error.unwrap().message, "WebSocket 响应超过帧大小限制");
        }
        other => panic!("{other:?}"),
    }
}

#[test]
fn questions_of_running_turns_come_with_their_turns() {
    let question = |id: &str, n: u64| PendingApprovalInfo {
        id: id.to_owned(),
        request_id: RequestId::Number(n),
        prompt: "?".to_owned(),
    };
    let frames =
        recovery_frames(&vec![question("a", 1), question("b", 2)], &vec![RequestId::Number(1)]);
    assert_eq!(frames.len(), 1);
    match &frames[0] {
        ServerFrame::Event(e) => {
            assert_eq!(e.request_id, RequestId::String("recovery".to_owned()));
            assert_eq!(e.data.get("approval").unwrap().str_at("id"), Some("b"));
        }
        other => panic!("{other:?}"),
    }
}

fn profile(id: &str) -> ProviderProfile {
    ProviderProfile {
        id: id.to_owned(),
        name: id.to_owned(),
        api_type: ApiType::Ollama,
        api_key: None,
        base_url: "http://127.0.0.1:11434".to_owned(),
        model: "qwen3".to_owned(),
    }
}

#[test]
fn a_change_of_the_model_is_answered() {
    let applied = model_applied(object(vec![("changed", Json::Bool(true))]), "/c.json");
    assert!(same(
        &applied,
        &object(vec![
            ("changed", Json::Bool(true)),
            ("runtime_applied", Json::Bool(true)),
            ("warning", Json::Null),
            ("config_path", text("/c.json")),
        ])
    ));
    assert_eq!(model_applied(Json::Null, "/c").bool_at("runtime_applied"), Some(true));

    let file = ConfigFile {
        active_profile: Some("b".to_owned()),
        profiles: vec![profile("a"), profile("b")],
        fallback_profile_ids: Vec::new(),
    };
    let saved = model_saved(&file, "未启动", "/c.json").unwrap();
    assert_eq!(saved.str_at("active_id"), Some("b"));
    assert_eq!(saved.str_at("warning"), Some("配置已保存，daemon 将在下次启动时应用：未启动"));
    assert_eq!(saved.bool_at("runtime_applied"), Some(false));
    assert_eq!(
        model_saved(&ConfigFile::empty(), "x", "/c").unwrap_err(),
        "保存后没有活动模型配置"
    );
    let missing = ConfigFile {
        active_profile: Some("z".to_owned()),
        profiles: vec![profile("a")],
        fallback_profile_ids: Vec::new(),
    };
    assert_eq!(model_saved(&missing, "x", "/c").unwrap_err(), "活动模型配置不存在");
    let activated = model_activated(&profile("a"), "未启动", "/c.json");
    assert_eq!(activated.str_at("warning"), Some("已保存为下次启动的活动模型：未启动"));
}

#[test]
fn the_service_listens_to_others_only_with_a_token() {
    assert_eq!(check_bind("0.0.0.0:80", false, true), Ok(()));
    assert_eq!(check_bind("127.0.0.1:80", true, false), Ok(()));
    assert_eq!(
        check_bind("0.0.0.0:80", false, false).unwrap_err(),
        "非回环地址 0.0.0.0:80 必须设置 MY_AGENT_API_TOKEN；建议默认使用 127.0.0.1:8787"
    );
    assert_eq!(api_token(Some("  ".to_owned())), None);
    assert_eq!(api_token(Some("t".to_owned())).as_deref(), Some("t"));
    assert_eq!(api_token(None), None);
    assert_eq!(active_model(None, "未配置"), "未配置");
    assert_eq!(active_model(Some(&profile("a")), "x"), "qwen3");
    assert_eq!(health("/w", "m").str_at("status"), Some("ok"));
}

#[test]
fn a_first_frame_may_be_a_list() {
    let step = |line: &str| connect(FirstFrame::Text(line.to_owned()), Some("t"));
    match step("[\"connect\",\"t\",\"/w\"]") {
        ConnectStep::Connect { workspace } => assert_eq!(workspace.as_deref(), Some("/w")),
        other => panic!("{other:?}"),
    }
    assert!(matches!(step("[\"connect\",\"t\"]"), ConnectStep::Connect { workspace: None }));
    assert!(matches!(step("[\"connect\"]"), ConnectStep::Refuse(m) if m == "Token 无效或缺失"));
    assert!(matches!(step("[]"), ConnectStep::Refuse(_)));
    assert!(matches!(step("[\"connect\",\"t\",\"/w\",1]"), ConnectStep::Refuse(_)));
}

#[test]
fn a_browser_is_told_the_models_or_why_not() {
    let store = ConfigStore::new("/c.json");
    let none: Result<ConfigFile, String> = Err("坏".to_owned());
    assert_eq!(web_models(&none, None, &store).unwrap_err(), "坏");
    let empty = Ok(ConfigFile {
        active_profile: None,
        profiles: Vec::new(),
        fallback_profile_ids: Vec::new(),
    });
    let listed = web_models(&empty, None, &store).unwrap();
    assert_eq!(listed.str_at("config_path"), Some("/c.json"));
    assert!(matches!(listed.get("active_id"), Some(Json::Null)));
}
