use my_agent::daemon::approval::PendingApprovalInfo;
use my_agent::daemon::protocol::{EventFrame, EventKind, JsonRpcResponse, RequestId, ServerFrame};
use my_agent::daemon::sessions::{SessionInfo, SessionStatus};
use my_agent::entry::tui::keybindings::{KeyCode, KeyEvent, KeyModifiers};
use my_agent::entry::tui::keys::{
    mouse_enabled, queued_in, queued_runs, removed_count, CommandChoice, KeyStep, Submission,
};
use my_agent::entry::tui::view::RenderCache;
use my_agent::entry::tui::{
    message_to_ui, tool_heading, ActivityPhase, RecoverySnapshot, Surroundings, ToolStatus,
    TuiState, TuiThemeMode, UiMessage, UiMessageKind,
};
use my_agent::json::Json;
use my_agent::provider::{Message, Role};

fn snapshot() -> RecoverySnapshot {
    RecoverySnapshot {
        session_id: "test".to_owned(),
        messages: Vec::new(),
        pending_approvals: Vec::new(),
        active_requests: Vec::new(),
    }
}

fn around() -> Surroundings {
    Surroundings {
        workspace: "/workspace".to_owned(),
        web_url: "http://127.0.0.1:8787".to_owned(),
        theme_mode: TuiThemeMode::Terminal,
    }
}

fn terminal() -> TuiState {
    TuiState::from_snapshot(snapshot(), around(), 0)
}

fn object(fields: Vec<(&str, Json)>) -> Json {
    Json::Object(fields.into_iter().map(|(key, value)| (key.to_owned(), value)).collect())
}

fn text(s: &str) -> Json {
    Json::Str(s.to_owned())
}

fn message_text(message: &UiMessage) -> &str {
    match &message.kind {
        UiMessageKind::Text(content) => content,
        UiMessageKind::Tool(_) => "",
    }
}

fn plain(code: KeyCode) -> KeyEvent {
    KeyEvent { code, modifiers: KeyModifiers::none() }
}

fn ctrl(c: char) -> KeyEvent {
    KeyEvent { code: KeyCode::Char(c), modifiers: KeyModifiers::ctrl() }
}

fn question(id: &str, request_id: &RequestId) -> PendingApprovalInfo {
    PendingApprovalInfo {
        id: id.to_owned(),
        request_id: request_id.clone(),
        prompt: "允许测试？".to_owned(),
    }
}

fn session(id: &str, preview: &str) -> SessionInfo {
    SessionInfo {
        id: id.to_owned(),
        path: format!("/sessions/{id}"),
        active: false,
        message_count: 2,
        modified_at: None,
        preview: Some(preview.to_owned()),
        status: SessionStatus::Idle,
        active_requests: 0,
        updated_at: None,
    }
}

#[test]
fn converts_persisted_message_to_ui_message() {
    let message = Message::text(Role::User, "检查项目");
    let converted = message_to_ui(message, 7, 0).expect("文本消息应可显示");
    assert_eq!(converted.role, Role::User);
    assert_eq!(converted.id, 7);
    assert!(matches!(converted.kind, UiMessageKind::Text(content) if content == "检查项目"));
}

#[test]
fn quit_signal_is_independent_from_status_text() {
    let mut state = terminal();
    state.status = "任意状态文案".to_owned();
    assert!(!state.should_quit);
    state.request_quit();
    assert!(state.should_quit);
    assert_eq!(state.status, "再见");
}

#[test]
fn slash_menu_filters_selects_and_completes_commands() {
    let commands = vec!["/help", "/status", "/sessions", "/resume ", "/dogfood"];
    let fitting = |line: &str| {
        commands
            .iter()
            .filter(|command| command.starts_with(line))
            .map(|command| (*command).to_owned())
            .collect::<Vec<String>>()
    };
    let mut state = terminal();
    state.input.replace("/");
    let all = fitting(&state.input.text());
    assert_eq!(all.len(), commands.len());
    state.select_next_slash(all.len());
    state.complete_selected_slash(&all);
    assert_eq!(state.input.text(), "/status");

    state.input.replace("/do");
    state.reset_slash_selection();
    let one = fitting(&state.input.text());
    assert_eq!(one.len(), 1);
    state.complete_selected_slash(&one);
    assert_eq!(state.input.text(), "/dogfood");
}

#[test]
fn the_list_of_commands_goes_round() {
    let mut state = terminal();
    state.select_previous_slash(3);
    assert_eq!(state.selected_slash(3), Some(2));
    state.select_next_slash(3);
    assert_eq!(state.selected_slash(3), Some(0));
    state.select_next_slash(3);
    assert_eq!(state.selected_slash(1), Some(0));
    assert_eq!(state.selected_slash(0), None);
}

#[test]
fn tracks_unread_messages_when_scrolled_away_from_bottom() {
    let mut state = terminal();
    state.scroll_by(8);
    state.push_text(Role::Assistant, "新消息".to_owned(), 0);
    assert_eq!(state.unread_messages, 1);
    assert!(!state.follow_bottom);
    state.scroll_to_bottom();
    assert_eq!(state.unread_messages, 0);
    assert!(state.follow_bottom);
}

#[test]
fn derives_activity_from_all_turns_and_pending_approvals() {
    let mut state = terminal();
    let waiting = RequestId::String("waiting".to_owned());
    let running = RequestId::String("running".to_owned());
    state.set_turn_phase(&waiting, ActivityPhase::WaitingModel);
    state.set_turn_phase(&running, ActivityPhase::RunningTool);
    assert_eq!(state.activity_phase(), ActivityPhase::RunningTool);

    state.pending_approvals.push(PendingApprovalInfo {
        id: "approval".to_owned(),
        request_id: waiting.clone(),
        prompt: "允许测试？".to_owned(),
    });
    assert_eq!(state.activity_phase(), ActivityPhase::WaitingApproval);

    state.pending_approvals.clear();
    state.end_turn_phase(&running);
    assert_eq!(state.activity_phase(), ActivityPhase::WaitingModel);
}

#[test]
fn preserves_concurrent_turns_and_approval_queue() {
    let first = RequestId::String("turn-a".to_owned());
    let second = RequestId::String("turn-b".to_owned());
    let mut state = TuiState::from_snapshot(
        RecoverySnapshot {
            session_id: "test".to_owned(),
            messages: Vec::new(),
            pending_approvals: vec![question("approval-a", &first), question("approval-b", &second)],
            active_requests: vec![first.clone(), second.clone()],
        },
        around(),
        0,
    );
    assert_eq!(state.pending_approvals.len(), 2);
    assert_eq!(state.recovery_active_requests, vec![first.clone(), second.clone()]);

    for (turn, delta) in [(&first, "来自 A"), (&second, "来自 B")] {
        let frame = ServerFrame::Event(EventFrame::new(
            turn.clone(),
            EventKind::TextDelta,
            object(vec![("delta", text(delta))]),
        ));
        state.handle_frame(turn, &frame, 0).unwrap();
    }
    assert_eq!(state.messages.len(), 2);
    assert!(state.messages.iter().any(|message| {
        message.turn_id.as_ref() == Some(&first) && message_text(message) == "来自 A"
    }));
    assert!(state.messages.iter().any(|message| {
        message.turn_id.as_ref() == Some(&second) && message_text(message) == "来自 B"
    }));
}

#[test]
fn shows_explicit_completion_marker_after_response() {
    let request_id = RequestId::String("turn-complete".to_owned());
    let mut state = terminal();
    let frame = ServerFrame::Response(JsonRpcResponse::success(
        request_id.clone(),
        object(vec![("content", text("完成"))]),
    ));
    state.handle_frame(&request_id, &frame, 0).unwrap();

    assert!(state.status.contains("任务完成"));
    assert_eq!(state.activity_phase(), ActivityPhase::Idle);
    assert!(state.messages.iter().any(|message| message_text(message).contains("任务完成")));
}

#[test]
fn unavailable_subscription_does_not_claim_turn_completed() {
    let request_id = RequestId::String("turn-missing".to_owned());
    let mut state = terminal();
    let frame = ServerFrame::Response(JsonRpcResponse::success(
        request_id.clone(),
        object(vec![("subscribed", Json::Bool(false))]),
    ));
    state.handle_frame(&request_id, &frame, 0).unwrap();
    assert!(state.status.contains("执行体不可用"));
    assert!(state.messages.iter().all(|message| !message_text(message).contains("任务完成")));
}

#[test]
fn resume_command_lists_and_restores_selected_session() {
    let mut state = terminal();
    assert!(state.messages.is_empty());
    assert!(matches!(state.submit_input("/resume"), Submission::Command(_)));
    state.command_listed(vec![session("old.jsonl", "需要恢复的旧问题")], true, 0);
    assert_eq!(state.resume_choices.len(), 1);
    assert!(message_text(&state.messages[0]).contains("需要恢复的旧问题"));

    match state.submit_input("1") {
        Submission::Command(line) => assert_eq!(line, "/resume 1"),
        other => panic!("{other:?}"),
    }
    let mut cache = RenderCache::new();
    state.command_changed(
        "已恢复".to_owned(),
        RecoverySnapshot {
            session_id: "old.jsonl".to_owned(),
            messages: vec![
                Message::text(Role::User, "需要恢复的旧问题"),
                Message::text(Role::Assistant, "旧回答"),
            ],
            pending_approvals: Vec::new(),
            active_requests: Vec::new(),
        },
        &mut cache,
        0,
    );
    assert_eq!(cache.len(), 0);
    assert_eq!(state.messages.len(), 2);
    assert_eq!(message_text(&state.messages[0]), "需要恢复的旧问题");
    assert_eq!(message_text(&state.messages[1]), "旧回答");

    state.command_said("pong".to_owned(), 0);
    assert_eq!(state.messages.last().map(message_text), Some("pong"));
}

#[test]
fn a_failed_turn_is_told_with_its_code() {
    let request_id = RequestId::Number(3);
    let mut state = terminal();
    let frame =
        ServerFrame::Response(JsonRpcResponse::failure(request_id.clone(), -32603, "模型不可用"));
    state.handle_frame(&request_id, &frame, 0).unwrap();
    assert_eq!(state.status, "请求失败（-32603）：模型不可用");
    assert_eq!(
        state.messages.last().map(message_text),
        Some("✗ 任务未完成 · request=Number(3) · 模型不可用")
    );
}

#[test]
fn tools_are_begun_and_ended_by_their_identifier() {
    let turn = RequestId::Number(1);
    let mut state = terminal();
    let started = ServerFrame::Event(EventFrame::new(
        turn.clone(),
        EventKind::ToolStarted,
        object(vec![
            ("tool_call_id", text("call-1")),
            ("name", text("exec")),
            ("round", Json::Unsigned(2)),
        ]),
    ));
    state.handle_frame(&turn, &started, 10).unwrap();
    assert_eq!(state.activity_phase(), ActivityPhase::RunningTool);
    let finished = ServerFrame::Event(EventFrame::new(
        turn.clone(),
        EventKind::ToolFinished,
        object(vec![
            ("tool_call_id", text("call-1")),
            ("name", text("exec")),
            ("output", text("a\nb")),
            ("round", Json::Unsigned(2)),
            ("duration_ms", Json::Unsigned(12)),
            ("success", Json::Bool(false)),
        ]),
    ));
    state.handle_frame(&turn, &finished, 30).unwrap();
    assert_eq!(state.messages.len(), 1);
    match &state.messages[0].kind {
        UiMessageKind::Tool(tool) => {
            assert_eq!(tool.heading, "运行命令");
            assert_eq!(tool.status, ToolStatus::Failed);
            assert_eq!(tool.output, vec!["a".to_owned(), "b".to_owned()]);
            assert_eq!(tool.round, 2);
            assert_eq!(tool.duration_ms, Some(12));
        }
        other => panic!("{other:?}"),
    }
    assert_eq!(
        state.status,
        "request=Number(1) · 第 2 轮 · 工具失败：exec · 12ms"
    );
}

#[test]
fn a_tool_whose_beginning_was_not_seen_is_put_there() {
    let turn = RequestId::Number(1);
    let mut state = terminal();
    state.finish_tool(&turn, None, "read_file", "内容", true, 5, 0);
    match &state.messages[0].kind {
        UiMessageKind::Tool(tool) => assert_eq!(tool.status, ToolStatus::Done),
        other => panic!("{other:?}"),
    }
}

#[test]
fn a_question_without_its_fields_is_refused() {
    let turn = RequestId::Number(1);
    let mut state = terminal();
    let frame = ServerFrame::Event(EventFrame::new(
        turn.clone(),
        EventKind::ApprovalRequired,
        object(vec![]),
    ));
    assert_eq!(state.handle_frame(&turn, &frame, 0).unwrap_err(), "审批事件格式无效");
    assert!(state.pending_approvals.is_empty());
}

#[test]
fn questions_of_an_ended_turn_are_taken_away() {
    let first = RequestId::Number(1);
    let second = RequestId::Number(2);
    let mut state = terminal();
    state.pending_approvals = vec![question("a", &first), question("b", &second)];
    let frame = ServerFrame::Response(JsonRpcResponse::success(first.clone(), object(vec![])));
    state.handle_frame(&first, &frame, 0).unwrap();
    assert_eq!(state.pending_approvals.len(), 1);
    assert_eq!(state.pending_approvals[0].id, "b");
}

#[test]
fn lines_that_were_typed_come_back() {
    let mut state = terminal();
    state.record_history("一");
    state.record_history("  ");
    state.record_history("二");
    state.record_history("二");
    assert_eq!(state.input_history, vec!["一".to_owned(), "二".to_owned()]);
    state.history_previous();
    assert_eq!(state.input.text(), "二");
    state.history_previous();
    assert_eq!(state.input.text(), "一");
    state.history_previous();
    assert_eq!(state.input.text(), "一");
    state.history_next();
    assert_eq!(state.input.text(), "二");
    state.history_next();
    assert_eq!(state.input.text(), "");
}

#[test]
fn no_more_than_a_hundred_lines_are_remembered() {
    let mut state = terminal();
    for i in 0..120 {
        state.record_history(&format!("line {i}"));
    }
    assert_eq!(state.input_history.len(), 100);
    assert_eq!(state.input_history[0], "line 20");
}

#[test]
fn tools_have_their_own_headings() {
    assert_eq!(tool_heading("read_file"), "读取文件");
    assert_eq!(tool_heading("write_file"), "写入文件");
    assert_eq!(tool_heading("edit_file"), "编辑文件");
    assert_eq!(tool_heading("exec"), "运行命令");
    assert_eq!(tool_heading("web"), "执行 web");
}

#[test]
fn colours_are_chosen_by_a_setting() {
    assert_eq!(TuiThemeMode::from_env(Some(" Dark ")), TuiThemeMode::Dark);
    assert_eq!(TuiThemeMode::from_env(Some("truecolor")), TuiThemeMode::Dark);
    assert_eq!(TuiThemeMode::from_env(Some("LIGHT")), TuiThemeMode::Light);
    assert_eq!(TuiThemeMode::from_env(Some("other")), TuiThemeMode::Terminal);
    assert_eq!(TuiThemeMode::from_env(None), TuiThemeMode::Terminal);
}

#[test]
fn enter_sends_the_line_and_letters_are_typed() {
    let mut state = terminal();
    let none: Vec<CommandChoice> = Vec::new();
    state.handle_key(plain(KeyCode::Char('h')), &none);
    state.handle_key(plain(KeyCode::Char('i')), &none);
    assert_eq!(state.input.text(), "hi");
    match state.handle_key(plain(KeyCode::Enter), &none) {
        KeyStep::Submit(line) => assert_eq!(line, "hi"),
        other => panic!("{other:?}"),
    }
    assert_eq!(state.input.text(), "");
}

#[test]
fn a_question_takes_the_keys() {
    let mut state = terminal();
    state.pending_approvals = vec![question("q-1", &RequestId::Number(1))];
    state.input.replace("draft");
    let none: Vec<CommandChoice> = Vec::new();
    match state.handle_key(plain(KeyCode::Char('y')), &none) {
        KeyStep::Answer { approval_id, approved } => {
            assert_eq!(approval_id, "q-1");
            assert!(approved);
        }
        other => panic!("{other:?}"),
    }
    assert_eq!(state.input.text(), "draft");
    state.answered(true);
    assert!(state.pending_approvals.is_empty());
}

#[test]
fn the_help_hides_the_rest() {
    let mut state = terminal();
    let none: Vec<CommandChoice> = Vec::new();
    state.handle_key(ctrl('/'), &none);
    assert!(state.show_help);
    state.handle_key(plain(KeyCode::Char('x')), &none);
    assert_eq!(state.input.text(), "");
}

#[test]
fn control_t_opens_the_details_where_they_are() {
    let mut state = terminal();
    state.push_text(Role::User, "问题".to_owned(), 0);
    let none: Vec<CommandChoice> = Vec::new();
    state.handle_key(ctrl('t'), &none);
    assert!(state.show_tools);
    assert_eq!(state.preserve_message_id, Some(1));
    assert_eq!(state.status, "工具详情已在原对话中展开");
    state.handle_key(ctrl('t'), &none);
    assert!(!state.show_tools);
}

#[test]
fn a_turn_that_waits_says_so() {
    let mut state = terminal();
    let id = RequestId::Number(4);
    state.begin_turn(&id, "做事".to_owned(), 0);
    assert_eq!(state.active_turns.len(), 1);
    assert_eq!(message_text(&state.messages[0]), "做事");
    assert_eq!(state.activity_phase(), ActivityPhase::WaitingModel);
    state.turn_queued(&id, Some(2));
    assert_eq!(state.queued_count, 2);
}

#[test]
fn only_what_was_taken_out_of_the_queue_is_counted() {
    let object = |fields: Vec<(&str, Json)>| {
        Json::Object(fields.into_iter().map(|(k, v)| (k.to_owned(), v)).collect())
    };
    let run = |id: &str| object(vec![("run_id", Json::Str(id.to_owned()))]);
    let listed = object(vec![(
        "items",
        Json::Array(vec![run("a"), object(vec![]), object(vec![("run_id", Json::Null)]), run("b")]),
    )]);
    assert_eq!(queued_runs(&listed), vec!["a".to_owned(), "b".to_owned()]);
    assert!(queued_runs(&Json::Null).is_empty());
    let answers = vec![
        object(vec![("cancelled", Json::Bool(true))]),
        object(vec![("cancelled", Json::Bool(false))]),
        Json::Null,
        object(vec![("cancelled", Json::Bool(true))]),
    ];
    assert_eq!(removed_count(&answers), 2);
}

#[test]
fn turns_that_ran_before_are_joined() {
    let mut joined = snapshot();
    joined.active_requests = vec![RequestId::Number(1), RequestId::Number(2)];
    let mut state = TuiState::from_snapshot(joined, around(), 0);
    let turns = state.turns_to_join();
    assert_eq!(turns, vec![RequestId::Number(1), RequestId::Number(2)]);
    assert!(state.turns_to_join().is_empty());
    state.turn_joined(RequestId::Number(1));
    state.end_turn_phase(&RequestId::Number(2));
    assert_eq!(state.active_turns.len(), 1);
    assert_eq!(state.active_turns[0].request_id, RequestId::Number(1));
    assert_eq!(state.active_turns[0].recovery_attempts, 0);
    state.queue_counted(3);
    assert_eq!(state.queued_count, 3);
    let listed = Json::Object(vec![(
        "items".to_owned(),
        Json::Array(vec![Json::Null, Json::Null]),
    )]);
    assert_eq!((queued_in(&listed), queued_in(&Json::Null)), (2, 0));
    assert!(mouse_enabled(Some("1")));
    assert!(!mouse_enabled(Some("true")) && !mouse_enabled(None));
}
