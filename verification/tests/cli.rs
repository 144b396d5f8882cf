use my_agent::daemon::protocol::{EventFrame, EventKind, JsonRpcResponse, RequestId, ServerFrame};
use my_agent::daemon::sessions::{SessionInfo, SessionStatus};
use my_agent::daemon::slash::SlashResponse;
use my_agent::entry::cli::{
    answer_allows, approval_prompt, cancel_outcome, cancel_request, chosen_line, history_lines,
    history_title, print_session_list, read_repl_line, require_result, slash_turn, watched_title,
    ChatPrinter, ChatStep, RecoveredPrinter, ReplLine, SlashTurn,
};
use my_agent::json::Json;
use my_agent::provider::{Message, Role};

fn object(fields: Vec<(&str, Json)>) -> Json {
    Json::Object(fields.into_iter().map(|(key, value)| (key.to_owned(), value)).collect())
}

fn text(s: &str) -> Json {
    Json::Str(s.to_owned())
}

fn event(kind: EventKind, data: Json) -> ServerFrame {
    ServerFrame::Event(EventFrame::new(RequestId::Number(1), kind, data))
}

fn asked(id: &str) -> Json {
    object(vec![("approval", object(vec![("id", text(id)), ("prompt", text("可以吗"))]))])
}

fn success(result: Json) -> ServerFrame {
    ServerFrame::Response(JsonRpcResponse::success(RequestId::Number(1), result))
}

fn failure(code: i64, message: &str) -> ServerFrame {
    ServerFrame::Response(JsonRpcResponse::failure(RequestId::Number(1), code, message))
}

#[test]
fn an_answer_is_printed_as_it_comes() {
    let mut printer = ChatPrinter::new(RequestId::Number(1));
    let delta = event(EventKind::TextDelta, object(vec![("delta", text("好"))]));
    assert!(matches!(printer.on_frame(&delta), ChatStep::Print(s) if s == "好"));
    assert!(printer.printed_text);
    match printer.on_frame(&success(object(vec![("content", text("好"))]))) {
        ChatStep::Done { end_line, content, note } => {
            assert!(end_line);
            assert_eq!(content, None);
            assert_eq!(note.as_deref(), Some("[任务完成] request_id=Number(1)"));
        }
        other => panic!("{other:?}"),
    }
}

#[test]
fn an_answer_that_was_not_streamed_is_printed_at_the_end() {
    let mut printer = ChatPrinter::new(RequestId::String("a".to_owned()));
    match printer.on_frame(&success(object(vec![("content", text("答"))]))) {
        ChatStep::Done { end_line, content, note } => {
            assert!(!end_line);
            assert_eq!(content.as_deref(), Some("答"));
            assert_eq!(note.as_deref(), Some("[任务完成] request_id=String(\"a\")"));
        }
        other => panic!("{other:?}"),
    }
    match printer.on_frame(&failure(-32603, "坏")) {
        ChatStep::Fail { end_line, message } => {
            assert!(!end_line);
            assert_eq!(message, "daemon RPC -32603: 坏");
        }
        other => panic!("{other:?}"),
    }
}

#[test]
fn tools_are_noted() {
    let mut printer = ChatPrinter::new(RequestId::Number(1));
    let started = object(vec![("name", text("exec")), ("round", Json::Unsigned(2))]);
    assert!(matches!(
        printer.on_frame(&event(EventKind::ToolStarted, started)),
        ChatStep::Note(s) if s == "\n[第 2 轮·工具开始] exec"
    ));
    let finished = object(vec![("name", text("exec")), ("duration_ms", Json::Unsigned(7))]);
    assert!(matches!(
        printer.on_frame(&event(EventKind::ToolFinished, finished)),
        ChatStep::Note(s) if s == "[工具完成] exec · 7ms"
    ));
    let failed = object(vec![("success", Json::Bool(false)), ("output", text("没有"))]);
    assert!(matches!(
        printer.on_frame(&event(EventKind::ToolFinished, failed)),
        ChatStep::Note(s) if s == "[工具失败] unknown · 0ms · 没有"
    ));
    let unknown = object(vec![("success", Json::Bool(false))]);
    assert!(matches!(
        printer.on_frame(&event(EventKind::ToolFinished, unknown)),
        ChatStep::Note(s) if s == "[工具失败] unknown · 0ms · 未知错误"
    ));
    assert!(matches!(
        printer.on_frame(&event(EventKind::ThinkingDelta, Json::Null)),
        ChatStep::Nothing
    ));
}

#[test]
fn questions_are_asked() {
    let mut printer = ChatPrinter::new(RequestId::Number(1));
    match printer.on_frame(&event(EventKind::ApprovalRequired, asked("q"))) {
        ChatStep::Ask(question) => assert_eq!(question.approval_id, "q"),
        other => panic!("{other:?}"),
    }
    for (data, why) in [
        (Json::Null, "审批事件缺少 approval"),
        (object(vec![("approval", Json::Null)]), "审批事件缺少 id"),
        (
            object(vec![("approval", object(vec![("id", text("q"))]))]),
            "审批事件缺少 prompt",
        ),
    ] {
        match printer.on_frame(&event(EventKind::ApprovalRequired, data)) {
            ChatStep::Fail { message, .. } => assert_eq!(message, why),
            other => panic!("{other:?}"),
        }
    }
    assert_eq!(approval_prompt("删除？"), "\n需要审批：删除？\n允许执行？[y/N] ");
    assert!(answer_allows(" Y\n"));
    assert!(answer_allows("yes"));
    assert!(!answer_allows(""));
    assert!(!answer_allows("yep"));
}

#[test]
fn a_turn_is_stopped_once() {
    let mut printer = ChatPrinter::new(RequestId::Number(1));
    assert!(printer.on_interrupt());
    assert!(!printer.on_interrupt());
    let params = cancel_request(&RequestId::Number(1), "s");
    assert_eq!(params.u64_at("request_id"), Some(1));
    assert_eq!(params.str_at("session_id"), Some("s"));
    assert!(cancel_outcome(&object(vec![("cancelled", Json::Bool(true))])).is_ok());
    assert!(cancel_outcome(&Json::Null).is_ok());
    assert_eq!(
        cancel_outcome(&object(vec![("cancelled", Json::Bool(false))])).unwrap_err(),
        "停止请求未生效：请求已结束或无法取消"
    );
    assert_eq!(
        cancel_outcome(&object(vec![
            ("cancelled", Json::Bool(false)),
            ("reason", text("太晚")),
        ]))
        .unwrap_err(),
        "停止请求未生效：太晚"
    );
}

#[test]
fn cli_reconnect_helper_recovers_active_turn_and_approval() {
    let mut printer = RecoveredPrinter {
        request_id: RequestId::String("cli-lost-turn".to_owned()),
        printed_text: false,
        handled: vec!["answered".to_owned()],
    };
    assert!(matches!(
        printer.on_frame(&event(EventKind::ApprovalRequired, asked("answered"))),
        ChatStep::Nothing
    ));
    assert!(matches!(
        printer.on_frame(&event(EventKind::ApprovalRequired, asked("open"))),
        ChatStep::Ask(question) if question.approval_id == "open"
    ));
    assert!(matches!(
        printer.on_frame(&event(EventKind::ApprovalRequired, asked("open"))),
        ChatStep::Nothing
    ));
    let started = object(vec![("name", text("danger")), ("round", Json::Unsigned(1))]);
    assert!(matches!(
        printer.on_frame(&event(EventKind::ToolStarted, started)),
        ChatStep::Note(s) if s == "\n[恢复·第 1 轮·工具开始] danger"
    ));
    let finished = object(vec![("name", text("danger"))]);
    assert!(matches!(
        printer.on_frame(&event(EventKind::ToolFinished, finished)),
        ChatStep::Note(s) if s == "[恢复工具完成] danger · 0ms"
    ));
    let delta = object(vec![("delta", text("CLI 恢复完成"))]);
    assert!(matches!(
        printer.on_frame(&event(EventKind::TextDelta, delta)),
        ChatStep::Print(s) if s == "CLI 恢复完成"
    ));
    assert!(matches!(
        printer.on_frame(&success(Json::Null)),
        ChatStep::Done { end_line: true, content: None, note: None }
    ));
    assert!(matches!(
        printer.on_frame(&failure(-1, "x")),
        ChatStep::Fail { message, .. }
            if message == "恢复请求 String(\"cli-lost-turn\") 失败（-1）：x"
    ));
    assert_eq!(
        printer.on_closed(),
        "恢复请求 String(\"cli-lost-turn\") 时 daemon 在终态前断开"
    );
}

#[test]
fn a_result_is_taken_from_the_reply() {
    assert!(require_result(event(EventKind::TextDelta, Json::Null)).is_none());
    assert!(matches!(require_result(success(text("x"))), Some(Ok(Json::Str(s))) if s == "x"));
    assert!(matches!(
        require_result(failure(-3, "坏")),
        Some(Err(e)) if e == "daemon RPC -3: 坏"
    ));
    let neither = JsonRpcResponse {
        jsonrpc: "2.0".to_owned(),
        id: RequestId::Number(1),
        result: None,
        error: None,
    };
    assert!(matches!(
        require_result(ServerFrame::Response(neither)),
        Some(Err(e)) if e == "daemon 响应缺少 result"
    ));
}

fn session(id: &str, active: bool) -> SessionInfo {
    SessionInfo {
        id: id.to_owned(),
        path: format!("/{id}"),
        active,
        message_count: 4,
        modified_at: None,
        preview: Some("预览".to_owned()),
        status: SessionStatus::Running,
        active_requests: 1,
        updated_at: None,
    }
}

#[test]
fn sessions_are_listed_with_their_numbers() {
    assert_eq!(print_session_list(&Vec::new()), vec!["暂无会话记录。"]);
    assert_eq!(
        print_session_list(&vec![session("a", true), session("b", false)]),
        vec![
            "* 1. a · running · 1 个活动请求 · 4 条消息 · 预览",
            "  2. b · running · 1 个活动请求 · 4 条消息 · 预览",
        ]
    );
}

#[test]
fn answers_to_commands_are_followed() {
    assert!(matches!(slash_turn(SlashResponse::Exit), SlashTurn::Exit));
    let say = SlashResponse::Text { content: "pong".to_owned() };
    assert!(matches!(slash_turn(say), SlashTurn::Print(lines) if lines == vec!["pong"]));
    let listed = SlashResponse::Sessions { sessions: vec![session("a", true)], select: false };
    assert!(matches!(slash_turn(listed), SlashTurn::Print(lines) if lines.len() == 1));
    let choose = SlashResponse::Sessions { sessions: vec![session("a", true)], select: true };
    assert!(matches!(slash_turn(choose), SlashTurn::Choose(_)));
    let none = SlashResponse::Sessions { sessions: Vec::new(), select: true };
    assert!(matches!(slash_turn(none), SlashTurn::Print(_)));
    let changed = SlashResponse::SessionChanged { message: "m".to_owned(), snapshot: Json::Null };
    assert!(matches!(slash_turn(changed), SlashTurn::Change { message, .. } if message == "m"));
    assert_eq!(chosen_line(" 2 \n").as_deref(), Some("/resume 2"));
    assert_eq!(chosen_line(" \n"), None);
}

#[test]
fn the_history_is_printed_by_role() {
    assert_eq!(
        history_lines(&vec![
            Message::text(Role::System, "s"),
            Message::text(Role::User, "u"),
            Message::text(Role::Assistant, "a"),
            Message::text(Role::Tool, "t"),
        ]),
        vec!["[你] u", "[Agent] a"]
    );
}

#[test]
fn lines_are_commands_or_messages() {
    assert!(matches!(read_repl_line("  \n"), ReplLine::Empty));
    assert!(matches!(read_repl_line(" /help\n"), ReplLine::Command(s) if s == "/help"));
    assert!(matches!(read_repl_line("你好 \n"), ReplLine::Message(s) if s == "你好"));
}

#[test]
fn what_is_taken_up_again_is_counted() {
    let messages = vec![Message::text(Role::User, "一"), Message::text(Role::Assistant, "二")];
    assert_eq!(history_title(&messages).as_deref(), Some("已恢复 2 条历史消息："));
    assert!(history_title(&Vec::new()).is_none());
    assert_eq!(
        watched_title(1).as_deref(),
        Some("检测到 1 个仍在执行的请求，正在恢复输出。")
    );
    assert!(watched_title(0).is_none());
}
