use my_agent::daemon::approval::PendingApprovalInfo;
use my_agent::daemon::protocol::{EventFrame, EventKind, JsonRpcResponse, RequestId, ServerFrame};
use my_agent::daemon::sessions::{SessionInfo, SessionStatus};
use my_agent::daemon::slash::{SlashAction, SlashInvocation, SlashParse, SlashResponse};
use my_agent::entry::editor::{
    daemon_session_id, forward_event, forward_prompt_frame, is_allowed, is_command,
    permission_choices, permission_granted, prompt_to_text, recover_pending_approvals, render_acp_slash_response,
    replay_history, require_workspace, same_path, AcpFailure, ContentBlock, PromptStep,
    SessionUpdate, StopReason,
};
use my_agent::json::Json;
use my_agent::provider::{Message, Role};

fn object(fields: Vec<(&str, Json)>) -> Json {
    Json::Object(fields.into_iter().map(|(key, value)| (key.to_owned(), value)).collect())
}

fn text(s: &str) -> Json {
    Json::Str(s.to_owned())
}

fn event(kind: EventKind, data: Json) -> ServerFrame {
    ServerFrame::Event(EventFrame::new(RequestId::Number(1), kind, data))
}

#[test]
fn prompt_accepts_text_and_resource_links() {
    let prompt = vec![
        ContentBlock::Text("检查代码".to_owned()),
        ContentBlock::ResourceLink {
            name: "README".to_owned(),
            uri: "file:///tmp/README.md".to_owned(),
        },
    ];

    assert_eq!(
        prompt_to_text(&prompt).unwrap(),
        "检查代码\n[资源：README](file:///tmp/README.md)"
    );
}

#[test]
fn prompt_rejects_unsupported_content() {
    assert!(prompt_to_text(&vec![ContentBlock::Other]).is_err());
}

#[test]
fn a_blank_prompt_is_refused() {
    match prompt_to_text(&vec![ContentBlock::Text(" \n".to_owned())]) {
        Err(AcpFailure::InvalidParams(Json::Str(why))) => assert_eq!(why, "prompt 不能为空"),
        other => panic!("{other:?}"),
    }
    match prompt_to_text(&vec![ContentBlock::Text("x".to_owned()), ContentBlock::Other]) {
        Err(AcpFailure::InvalidParams(Json::Str(why))) => {
            assert_eq!(why, "当前 ACP 入口仅支持 text 与 resource_link 内容块")
        }
        other => panic!("{other:?}"),
    }
}

#[test]
fn commands_begin_with_a_slash() {
    assert!(is_command("  /ping"));
    assert!(!is_command("ping /x"));
    assert!(!is_command(""));
}

#[test]
fn paths_are_compared_by_their_parts() {
    assert!(same_path("/a/b", "/a//b/"));
    assert!(same_path("/a/./b", "/a/b"));
    assert!(!same_path("/a/b", "a/b"));
    assert!(!same_path("./a", "a"));
    assert!(!same_path("/a/b", "/a/c"));
    assert!(!same_path("/a", "/a/b"));
    assert!(same_path("", ""));
}

#[test]
fn only_the_workspace_is_served() {
    assert!(require_workspace("/w/", "/w").is_ok());
    match require_workspace("/other", "/w") {
        Err(AcpFailure::InvalidParams(data)) => {
            assert_eq!(data.str_at("message"), Some("ACP cwd 必须与 daemon 工作区一致"));
            assert_eq!(data.str_at("requested"), Some("/other"));
        }
        other => panic!("{other:?}"),
    }
}

#[test]
fn a_session_needs_a_name() {
    assert_eq!(daemon_session_id(&object(vec![("session_id", text("s"))])).unwrap(), "s");
    match daemon_session_id(&Json::Null) {
        Err(AcpFailure::Internal(why)) => assert_eq!(why, "daemon 响应缺少 session_id"),
        other => panic!("{other:?}"),
    }
}

fn command(action: SlashAction, args: Vec<&str>) -> SlashParse {
    SlashParse::Command(SlashInvocation {
        action,
        args: args.into_iter().map(str::to_owned).collect(),
    })
}

#[test]
fn only_commands_that_tell_something_are_sent() {
    assert!(is_allowed(&command(SlashAction::Ping, vec![])));
    assert!(is_allowed(&command(SlashAction::Mcp, vec!["list"])));
    assert!(is_allowed(&SlashParse::Error("x".to_owned())));
    assert!(!is_allowed(&command(SlashAction::Mcp, vec!["reload"])));
    assert!(!is_allowed(&command(SlashAction::Mcp, vec!["list", "x"])));
    assert!(!is_allowed(&command(SlashAction::Resume, vec![])));
    assert!(!is_allowed(&SlashParse::NotCommand));
}

#[test]
fn answers_to_commands_become_text() {
    let say = |content: &str| SlashResponse::Text { content: content.to_owned() };
    assert_eq!(render_acp_slash_response(say("pong")), "pong");
    assert_eq!(render_acp_slash_response(SlashResponse::Exit), "ACP 入口不支持 /exit。");
    let empty = SlashResponse::Sessions { sessions: Vec::new(), select: false };
    assert_eq!(render_acp_slash_response(empty), "暂无会话记录。");
    let sessions = vec![SessionInfo {
        id: "s.jsonl".to_owned(),
        path: "/s.jsonl".to_owned(),
        active: true,
        message_count: 3,
        modified_at: None,
        preview: None,
        status: SessionStatus::Idle,
        active_requests: 0,
        updated_at: None,
    }];
    let listed = SlashResponse::Sessions { sessions, select: true };
    assert_eq!(render_acp_slash_response(listed), "1. s.jsonl · 3 条消息 · 无摘要");
    let changed = SlashResponse::SessionChanged { message: "已恢复".to_owned(), snapshot: Json::Null };
    assert_eq!(render_acp_slash_response(changed), "已恢复");
}

#[test]
fn events_are_told_to_the_editor() {
    let delta = EventFrame::new(
        RequestId::Number(1),
        EventKind::TextDelta,
        object(vec![("delta", text("好"))]),
    );
    assert!(matches!(forward_event(&delta), Some(SessionUpdate::AgentMessageChunk(s)) if s == "好"));
    let started = EventFrame::new(
        RequestId::Number(1),
        EventKind::ToolStarted,
        object(vec![("name", text("exec"))]),
    );
    match forward_event(&started) {
        Some(SessionUpdate::ToolCall { id, title }) => {
            assert_eq!(id, "unknown");
            assert_eq!(title, "exec");
        }
        other => panic!("{other:?}"),
    }
    let finished = EventFrame::new(
        RequestId::Number(1),
        EventKind::ToolFinished,
        object(vec![
            ("tool_call_id", text("c")),
            ("output", text("结果")),
            ("round", Json::Unsigned(2)),
            ("success", Json::Bool(false)),
        ]),
    );
    match forward_event(&finished) {
        Some(SessionUpdate::ToolCallUpdate { id, completed, output, raw_output }) => {
            assert_eq!(id, "c");
            assert!(!completed);
            assert_eq!(output, "结果");
            assert_eq!(raw_output.u64_at("round"), Some(2));
            assert_eq!(raw_output.bool_at("success"), Some(false));
        }
        other => panic!("{other:?}"),
    }
    let begun = EventFrame::new(RequestId::Number(1), EventKind::TurnStarted, Json::Null);
    assert!(forward_event(&begun).is_none());
}

#[test]
fn a_turn_of_the_editor_ends_as_the_daemon_says() {
    let none: Vec<String> = Vec::new();
    let done = ServerFrame::Response(JsonRpcResponse::success(RequestId::Number(1), Json::Null));
    assert!(matches!(
        forward_prompt_frame(done, &none),
        PromptStep::Done(StopReason::EndTurn)
    ));
    let stopped =
        ServerFrame::Response(JsonRpcResponse::failure(RequestId::Number(1), -32800, "x"));
    assert!(matches!(
        forward_prompt_frame(stopped, &none),
        PromptStep::Done(StopReason::Cancelled)
    ));
    let failed =
        ServerFrame::Response(JsonRpcResponse::failure(RequestId::Number(1), -32001, "忙"));
    match forward_prompt_frame(failed, &none) {
        PromptStep::Fail(AcpFailure::Rpc { code, message }) => {
            assert_eq!(code, -32001);
            assert_eq!(message, "忙");
        }
        other => panic!("{other:?}"),
    }
    let large =
        ServerFrame::Response(JsonRpcResponse::failure(RequestId::Number(1), 1 << 40, "x"));
    assert!(matches!(
        forward_prompt_frame(large, &none),
        PromptStep::Fail(AcpFailure::Rpc { code: -32603, .. })
    ));
}

#[test]
fn questions_asked_elsewhere_are_left_alone() {
    let data = || {
        object(vec![("approval", object(vec![("id", text("q")), ("prompt", text("可以吗"))]))])
    };
    let none: Vec<String> = Vec::new();
    match forward_prompt_frame(event(EventKind::ApprovalRequired, data()), &none) {
        PromptStep::Ask(q) => {
            assert_eq!(q.approval_id, "q");
            assert_eq!(q.prompt, "可以吗");
        }
        other => panic!("{other:?}"),
    }
    let ignored = vec!["q".to_owned()];
    assert!(matches!(
        forward_prompt_frame(event(EventKind::ApprovalRequired, data()), &ignored),
        PromptStep::Nothing
    ));
    assert!(matches!(
        forward_prompt_frame(event(EventKind::ApprovalRequired, Json::Null), &none),
        PromptStep::Fail(AcpFailure::Internal(why)) if why == "审批事件缺少 approval"
    ));
    assert!(matches!(
        forward_prompt_frame(event(EventKind::TextDelta, Json::Null), &none),
        PromptStep::Tell(SessionUpdate::AgentMessageChunk(_))
    ));
    assert!(permission_granted(Some("allow_once")));
    assert!(!permission_granted(Some("reject_once")));
    assert!(!permission_granted(None));
}

#[test]
fn the_history_is_told_again() {
    let updates = replay_history(&vec![
        Message::text(Role::System, "规则"),
        Message::text(Role::User, "问"),
        Message::text(Role::Assistant, ""),
        Message::text(Role::Tool, "果"),
    ]);
    assert_eq!(updates.len(), 2);
    assert!(matches!(&updates[0], SessionUpdate::UserMessageChunk(s) if s == "问"));
    assert!(matches!(&updates[1], SessionUpdate::AgentMessageChunk(s) if s == "果"));
    let questions = recover_pending_approvals(&vec![PendingApprovalInfo {
        id: "q".to_owned(),
        request_id: RequestId::Number(1),
        prompt: "可以吗".to_owned(),
    }]);
    assert_eq!(questions[0].approval_id, "q");
    assert_eq!(questions[0].prompt, "可以吗");
}

#[test]
fn choices_say_what_they_grant() {
    for choice in permission_choices() {
        assert_eq!(permission_granted(Some(choice.id)), choice.allows);
    }
    assert_eq!(permission_choices()[0].name, "允许一次");
}
