use my_agent::cron::{CronManager, CronStore};
use my_agent::daemon::approval::{
    answer_delivered, approval_id, info_from_json, info_to_json, ApprovalBroker, ApprovalContext,
    PendingApprovalInfo,
};
use my_agent::daemon::audit::{artifact_sha256, audit_run, hex_text, session_unreadable, ToolReceipt, TraceMark};
use my_agent::daemon::chat::{
    admission_failure, admission_mode, admission_step, chat_params, Admission, AdmissionMode,
    AdmissionStep, RunRecord, RunStatus, TurnOutcome,
};
use my_agent::daemon::control::{
    answer_accepted, answer_failed, answer_was_lost, cancel_found, cancel_reread, cancel_target, may_reconcile, place_update, reconcile_reply,
    resolve_interaction, run_reply, stop_reply, stored_reply, AnswerParams, CancelStep,
    CancelTarget, ChatStart, CommittedRun, Interaction, PublishPlan, QueueMove,
};
use my_agent::daemon::handlers::{
    events_window, is_resolved_approval, stored_event_update, Call, StoredEvent,
};
use my_agent::daemon::protocol::{EventKind, RequestId, ServerFrame};
use my_agent::daemon::server::{Lifecycle, IDLE_EXIT_MS};
use my_agent::daemon::sessions::{
    open_failed, requested_session, session_activity, session_infos, session_load_page,
    session_new, session_resume, session_source, session_trace, session_trace_page, LoadedSession,
    SessionInfo, SessionSource, SessionStatus,
};
use my_agent::daemon::subscribe::{
    find_watched, handle_subscribe, subscribe_params, watch_lookup, watched_run, SubscribeParams,
    WatchLookup, WatchStart, WatchStep,
};
use my_agent::daemon::{ActiveKey, ActiveRequest, ActiveRequestUpdate, DaemonState};
use my_agent::json::Json;
use my_agent::loop_engine::CancellationToken;
use my_agent::provider::{Message, Role};

fn object(fields: Vec<(&str, Json)>) -> Json {
    Json::Object(fields.into_iter().map(|(k, v)| (k.to_owned(), v)).collect())
}

fn text(s: &str) -> Json {
    Json::Str(s.to_owned())
}

fn number(n: u64) -> RequestId {
    RequestId::Number(n)
}

fn approval_of(frame: ServerFrame) -> (RequestId, String) {
    match frame {
        ServerFrame::Event(event) => {
            let id = event.data.get("approval").unwrap().str_at("id").unwrap().to_owned();
            (event.request_id, id)
        }
        other => panic!("{other:?}"),
    }
}

fn run(status: RunStatus) -> RunRecord {
    RunRecord {
        run_id: "run-1".to_owned(),
        turn_id: "turn-1".to_owned(),
        session_id: "s".to_owned(),
        request_id: number(7),
        status,
        last_seq: 3,
        content: Some("答".to_owned()),
        error_code: None,
        error_message: None,
    }
}

fn key() -> ActiveKey {
    ActiveKey { session_id: "s".to_owned(), request_id: number(7) }
}

fn state() -> DaemonState {
    DaemonState::new("s", ApprovalBroker::new(), "/daemon.log")
}

fn busy_state() -> DaemonState {
    let mut state = state();
    state.active.begin(key(), &run(RunStatus::Running)).unwrap();
    state
}

fn delta(seq: Option<u64>) -> ActiveRequestUpdate {
    ActiveRequestUpdate::Event {
        kind: EventKind::TextDelta,
        data: object(vec![("delta", text("字"))]),
        run_id: Some("run-1".to_owned()),
        seq,
    }
}

#[test]
fn publishes_and_resolves_approval() {
    let mut broker = ApprovalBroker::new();
    let (_, id) = approval_of(broker.register("approval-1", &number(9), None, "执行危险操作"));
    let answered = broker.respond(&id).unwrap();
    assert_eq!(answered.info.prompt, "执行危险操作");
    assert!(broker.pending().is_empty());
    assert_eq!(broker.respond(&id).unwrap_err(), "找不到待审批项: approval-1");
}

#[test]
fn concurrent_requests_keep_their_own_event_context() {
    let mut broker = ApprovalBroker::new();
    let first = RequestId::String("first".to_owned());
    let second = RequestId::String("second".to_owned());
    let (first_request, first_id) = approval_of(broker.register("a", &first, None, "第一个审批"));
    let (second_request, second_id) =
        approval_of(broker.register("b", &second, None, "第二个审批"));
    assert_eq!(first_request, first);
    assert_eq!(second_request, second);
    assert_eq!(broker.respond(&first_id).unwrap().info.prompt, "第一个审批");
    assert_eq!(broker.respond(&second_id).unwrap().info.prompt, "第二个审批");
}

#[test]
fn cancellation_is_scoped_to_session_even_when_request_ids_repeat() {
    let mut broker = ApprovalBroker::new();
    broker.register("a", &number(1), Some("session-a".to_owned()), "第一个审批");
    broker.register("b", &number(1), Some("session-b".to_owned()), "第二个审批");
    assert_eq!(broker.cancel_request_in_session("session-a", &number(1)), vec!["a"]);
    assert_eq!(broker.pending_for_session(Some("session-a")).len(), 0);
    assert_eq!(broker.pending_sessions(), vec!["session-b"]);
    assert!(broker.respond("b").is_ok());
}

#[test]
fn questions_are_listed_in_order_and_ended_by_request() {
    let mut broker = ApprovalBroker::new();
    broker.register("b", &number(1), None, "二");
    broker.register("a", &number(2), None, "一");
    let ids = broker.pending().into_iter().map(|i| i.id).collect::<Vec<String>>();
    assert_eq!(ids, vec!["a", "b"]);
    assert_eq!(broker.cancel_request(&number(1)), vec!["b"]);
    assert_eq!(broker.pending().len(), 1);
    assert_eq!(approval_id(12, "n", 3), "approval-12-n-3");
}

#[test]
fn a_question_is_read_back() {
    let info = PendingApprovalInfo {
        id: "a".to_owned(),
        request_id: number(1),
        prompt: "吗".to_owned(),
    };
    let read = info_from_json(&info_to_json(&info)).unwrap();
    assert_eq!(read.id, "a");
    assert_eq!(read.request_id, number(1));
    assert_eq!(read.prompt, "吗");
    assert!(info_from_json(&object(vec![("id", text("a"))])).is_none());
}

#[test]
fn messages_are_admitted_or_refused() {
    let good = object(vec![("message", text("好"))]);
    assert_eq!(chat_params(false, &good).unwrap().message, "好");
    assert_eq!(chat_params(true, &good).unwrap_err().0, -32001);
    let blank = object(vec![("message", text(" "))]);
    assert_eq!(chat_params(false, &blank).unwrap_err().1, "message 不能为空");
    assert_eq!(chat_params(false, &Json::Null).unwrap_err().0, -32602);
    assert!(matches!(admission_mode(None), Ok(AdmissionMode::Queue)));
    assert!(matches!(admission_mode(Some("reject_if_busy")), Ok(AdmissionMode::RejectIfBusy)));
    assert_eq!(admission_mode(Some("x")).unwrap_err().1, "不支持的 admission_mode");
    assert_eq!(admission_failure(true, "忙".to_owned()).0, -32001);
    assert_eq!(admission_failure(false, "坏".to_owned()).0, -32603);
}

#[test]
fn a_message_that_was_seen_is_not_run_again() {
    assert!(matches!(
        admission_step(Admission::New(run(RunStatus::Queued))),
        AdmissionStep::Enqueue(_)
    ));
    match admission_step(Admission::Existing(run(RunStatus::Completed))) {
        AdmissionStep::Reply(reply) => assert_eq!(reply.str_at("content"), Some("答")),
        other => panic!("{other:?}"),
    }
    match admission_step(Admission::Existing(run(RunStatus::Failed))) {
        AdmissionStep::Reply(reply) => assert_eq!(reply.bool_at("duplicate"), Some(true)),
        other => panic!("{other:?}"),
    }
    let mut state = busy_state();
    let again = state.active.begin(key(), &run(RunStatus::Running)).unwrap_err();
    assert_eq!(again.str_at("status"), Some("queued_or_running"));
    assert_eq!(state.active.entries.len(), 1);
}

#[test]
fn statuses_have_names() {
    for status in [
        RunStatus::Queued,
        RunStatus::Running,
        RunStatus::WaitingInteraction,
        RunStatus::Completed,
        RunStatus::Failed,
        RunStatus::Cancelled,
        RunStatus::UnknownAfterRestart,
    ] {
        assert!(RunStatus::from_name(status.name()) == Some(status));
    }
    assert!(RunStatus::from_name("x").is_none());
}

#[test]
fn only_the_latest_updates_are_kept() {
    let mut request = ActiveRequest::new(CancellationToken::new(), "run-1");
    let large = ActiveRequestUpdate::Completed(Json::Str("x".repeat(600_000)));
    request.publish(&delta(Some(1)));
    assert_eq!(request.subscribe().len(), 1);
    request.publish(&large);
    request.publish(&large);
    assert_eq!(request.subscribe().len(), 1);
}

#[test]
fn queued_turn_can_be_cancelled_before_acquiring_session_lock() {
    let mut state = busy_state();
    assert!(matches!(state.queue_move(&key(), false, Ok(false)), QueueMove::Wait));
    assert!(state.has_active_turns());
    match state.queue_move(&key(), true, Ok(false)) {
        QueueMove::End(reply) => {
            let error = reply.error.unwrap();
            assert_eq!(error.code, -32800);
            assert_eq!(error.message, "请求已取消");
        }
        other => panic!("{other:?}"),
    }
    assert!(!state.has_active_turns());
    let mut state = busy_state();
    assert!(matches!(state.queue_move(&key(), false, Ok(true)), QueueMove::Start));
    match state.queue_move(&key(), false, Err("坏".to_owned())) {
        QueueMove::End(reply) => assert_eq!(reply.error.unwrap().code, -32603),
        other => panic!("{other:?}"),
    }
}

#[test]
fn a_waiting_message_leaves_when_the_daemon_stops() {
    let mut state = busy_state();
    state.begin_shutdown();
    assert!(matches!(state.queue_move(&key(), false, Ok(true)), QueueMove::Start));
    assert!(state.has_active_turns());
    assert!(matches!(state.queue_move(&key(), false, Ok(false)), QueueMove::Leave));
    assert!(!state.has_active_turns());
}

#[test]
fn an_admitted_message_waits_unless_it_was_sent_before() {
    let mut state = state();
    match state.chat_admitted(&key(), Err((true, "正忙".to_owned()))) {
        ChatStart::End(reply) => {
            let error = reply.error.unwrap();
            assert_eq!(error.code, -32001);
            assert_eq!(error.message, "正忙");
        }
        other => panic!("{other:?}"),
    }
    match state.chat_admitted(&key(), Err((false, "坏".to_owned()))) {
        ChatStart::End(reply) => assert_eq!(reply.error.unwrap().code, -32603),
        other => panic!("{other:?}"),
    }
    match state.chat_admitted(&key(), Ok(Admission::Existing(run(RunStatus::Completed)))) {
        ChatStart::End(reply) => {
            assert_eq!(reply.id, number(7));
            let result = reply.result.unwrap();
            assert_eq!(result.str_at("content"), Some("答"));
            assert_eq!(result.str_at("run_id"), Some("run-1"));
            assert_eq!(result.str_at("turn_id"), Some("turn-1"));
        }
        other => panic!("{other:?}"),
    }
    assert!(!state.has_active_turns());
    match state.chat_admitted(&key(), Ok(Admission::Existing(run(RunStatus::Queued)))) {
        ChatStart::Wait(run) => assert_eq!(run.run_id, "run-1"),
        other => panic!("{other:?}"),
    }
    assert!(state.has_active_turns());
    match state.chat_admitted(&key(), Ok(Admission::New(run(RunStatus::Queued)))) {
        ChatStart::End(reply) => {
            assert_eq!(reply.result.unwrap().str_at("status"), Some("queued_or_running"));
        }
        other => panic!("{other:?}"),
    }
}

#[test]
fn cancels_an_active_turn_by_request_id() {
    let mut state = busy_state();
    state.approvals.register("a", &number(7), Some("s".to_owned()), "吗");
    let stopped = state.cancel_running(&run(RunStatus::Running));
    assert_eq!(stopped.reply.bool_at("cancelled"), Some(true));
    assert_eq!(stopped.refused, vec!["a"]);
    assert!(state.approvals.pending().is_empty());
    let reply = state.chat_response(&key(), TurnOutcome::Cancelled, &run(RunStatus::Running));
    let (code, message) = reply.unwrap_err();
    assert_eq!(code, -32800);
    assert_eq!(message, "请求已取消");
    let done = state.cancel_running(&run(RunStatus::Completed));
    assert_eq!(done.reply.bool_at("cancelled"), Some(false));
    let gone = self::state().cancel_running(&run(RunStatus::Running));
    assert_eq!(gone.reply.str_at("reason"), Some("执行体已消失"));
}

#[test]
fn what_is_cancelled_is_named() {
    assert!(matches!(
        cancel_target(None, Some("r".to_owned()), Some("s".to_owned())),
        Ok(CancelTarget::Run { .. })
    ));
    assert_eq!(
        cancel_target(None, Some("r".to_owned()), None).unwrap_err().1,
        "exact cancel 需要 session_id"
    );
    assert!(cancel_target(None, None, None).is_err());
    let anywhere = cancel_target(Some(number(7)), None, None).unwrap();
    assert!(matches!(anywhere, CancelTarget::RequestAnywhere { .. }));
    assert!(matches!(
        cancel_found(&anywhere, Ok(Some(run(RunStatus::Queued)))),
        Ok(CancelStep::RemoveQueued(_))
    ));
    assert!(matches!(
        cancel_found(&anywhere, Ok(Some(run(RunStatus::Running)))),
        Ok(CancelStep::Stop(_))
    ));
    let other = CancelTarget::Run { run_id: "run-1".to_owned(), session_id: "t".to_owned() };
    assert_eq!(
        cancel_found(&other, Ok(Some(run(RunStatus::Running)))).unwrap_err().1,
        "run 不属于指定 session"
    );
    assert_eq!(cancel_found(&other, Ok(None)).unwrap_err().1, "run 不存在");
    assert_eq!(cancel_reread(Ok(None)).unwrap_err().1, "run 不存在");
    let mut state = busy_state();
    let reply = state.cancel_queued(&run(RunStatus::Queued), Ok(true)).unwrap().unwrap();
    assert_eq!(reply.str_at("status"), Some("queued"));
    assert!(state.cancel_queued(&run(RunStatus::Queued), Ok(false)).unwrap().is_none());
    assert!(state.cancel_queued(&run(RunStatus::Queued), Err("坏".to_owned())).is_err());
}

#[test]
fn updates_are_stored_before_they_are_told() {
    let mut state = busy_state();
    assert_eq!(state.active_run(&key()).as_deref(), Some("run-1"));
    match state.publish_plan(&key(), delta(None)) {
        PublishPlan::Store { run_id, name, .. } => {
            assert_eq!(run_id, "run-1");
            assert_eq!(name, "text_delta");
        }
        other => panic!("{other:?}"),
    }
    match state.publish_update(&key(), "run-1", delta(None), Ok(5)) {
        Some(ServerFrame::Event(event)) => {
            assert_eq!(event.seq, Some(5));
            assert_eq!(event.run_id.as_deref(), Some("run-1"));
        }
        other => panic!("{other:?}"),
    }
    assert!(state.publish_update(&key(), "run-1", delta(None), Err("满".to_owned())).is_none());
    let failed = state.chat_response(
        &key(),
        TurnOutcome::Answered("答".to_owned()),
        &run(RunStatus::Running),
    );
    assert_eq!(failed.unwrap_err().1, "持久化事件失败: 满");
}

#[test]
fn a_turn_ends_with_its_answer_and_its_reply() {
    let mut state = busy_state();
    let reply = state
        .chat_response(&key(), TurnOutcome::Answered("答".to_owned()), &run(RunStatus::Running))
        .unwrap();
    assert_eq!(reply.str_at("content"), Some("答"));
    let stored = CommittedRun {
        status: RunStatus::Completed,
        content: Some("答".to_owned()),
        last_seq: Some(9),
    };
    let frames = state.finish_chat(&key(), Ok(stored), Ok(reply));
    assert_eq!(frames.len(), 2);
    match &frames[0] {
        ServerFrame::Event(event) => assert_eq!(event.seq, Some(8)),
        other => panic!("{other:?}"),
    }
    assert!(matches!(&frames[1], ServerFrame::Response(r) if r.result.is_some()));
    assert!(!state.has_active_turns());
}

#[test]
fn an_unknown_end_is_not_told_as_a_success() {
    let mut state = busy_state();
    let stored = CommittedRun {
        status: RunStatus::UnknownAfterRestart,
        content: None,
        last_seq: None,
    };
    let frames = state.finish_chat(&key(), Ok(stored), Ok(Json::Null));
    match &frames[0] {
        ServerFrame::Response(r) => assert_eq!(r.error.as_ref().unwrap().code, -32002),
        other => panic!("{other:?}"),
    }
    let mut state = busy_state();
    let frames = state.finish_chat(&key(), Err("满".to_owned()), Ok(Json::Null));
    match &frames[0] {
        ServerFrame::Response(r) => {
            assert_eq!(r.error.as_ref().unwrap().message, "持久化终态失败: 满")
        }
        other => panic!("{other:?}"),
    }
}

#[test]
fn answers_are_for_the_owner_of_a_question() {
    let params = |approved: Option<bool>, session: Option<&str>| AnswerParams {
        approved,
        session_id: session.map(str::to_owned),
        owner_run_id: None,
        revision: None,
    };
    let question = || Interaction {
        session_id: "s".to_owned(),
        owner_run_id: "run-1".to_owned(),
        revision: 4,
        status: "pending".to_owned(),
    };
    let step = resolve_interaction(&params(Some(true), Some("s")), false, Ok(Some(question())));
    let step = step.unwrap();
    assert!(step.waiting && step.approved);
    assert_eq!(step.revision, 4);
    let rejected = resolve_interaction(&params(None, None), true, Ok(Some(question()))).unwrap();
    assert!(!rejected.approved);
    assert_eq!(
        resolve_interaction(&params(None, None), false, Ok(Some(question()))).unwrap_err().1,
        "缺少 approved"
    );
    assert_eq!(
        resolve_interaction(&params(Some(true), Some("t")), false, Ok(Some(question())))
            .unwrap_err()
            .1,
        "interaction owner 不匹配"
    );
    assert_eq!(
        resolve_interaction(&params(Some(true), None), false, Ok(None)).unwrap_err().1,
        "interaction 不存在"
    );
    assert!(answer_was_lost(Some("answered")));
    assert!(!answer_was_lost(Some("pending")));
    assert_eq!(answer_accepted(Json::Null).bool_at("accepted"), Some(true));
}

#[test]
fn stored_things_are_replied() {
    assert!(stored_reply("queue", Ok(Json::Null)).unwrap().get("queue").is_some());
    assert_eq!(stored_reply("queue", Err("坏".to_owned())).unwrap_err().0, -32603);
    assert_eq!(run_reply(Ok(None)).unwrap_err().1, "run 不存在");
    assert_eq!(
        may_reconcile(&busy_state(), "run-1").unwrap_err().1,
        "run 仍有活动执行体"
    );
    assert!(may_reconcile(&busy_state(), "run-2").is_ok());
    assert!(may_reconcile(&state(), "run-1").is_ok());
    assert!(reconcile_reply(Ok(Json::Null)).unwrap().get("run").is_some());
    assert_eq!(
        reconcile_reply(Err("旧".to_owned())).unwrap_err().0,
        -32001
    );
    assert_eq!(stop_reply().bool_at("active_turns_cancelled"), Some(true));
}

fn watch(after: Option<u64>) -> SubscribeParams {
    SubscribeParams { request_id: number(7), session_id: Some("s".to_owned()), after_seq: after }
}

fn stored_events(count: u64) -> Vec<StoredEvent> {
    (1..=count)
        .map(|seq| StoredEvent {
            run_id: "run-1".to_owned(),
            seq,
            event: "text_delta".to_owned(),
            data: object(vec![("delta", text("字"))]),
        })
        .collect()
}

#[test]
fn subscribe_gap_returns_snapshot_and_page_cursor() {
    let mut long = run(RunStatus::Running);
    long.last_seq = 1001;
    let snapshot = object(vec![("run_id", text("run-1"))]);
    let started = handle_subscribe(
        number(1),
        &watch(Some(0)),
        &long,
        snapshot,
        true,
        stored_events(1000),
        &Vec::new(),
    );
    match started {
        WatchStart::Resync(response) => {
            let data = response.error.unwrap().data.unwrap();
            assert_eq!(data.str_at("kind"), Some("resync_required"));
            assert_eq!(data.get("snapshot").unwrap().str_at("run_id"), Some("run-1"));
            assert_eq!(data.u64_at("last_seq"), Some(1001));
            assert_eq!(data.u64_at("cursor"), Some(1000));
        }
        other => panic!("{other:?}"),
    }
}

#[test]
fn a_watch_tells_each_event_once() {
    let started = handle_subscribe(
        number(1),
        &watch(None),
        &run(RunStatus::Running),
        Json::Null,
        true,
        stored_events(3),
        &Vec::new(),
    );
    let mut subscription = match started {
        WatchStart::Live { frames, watch } => {
            assert_eq!(frames.len(), 3);
            watch
        }
        other => panic!("{other:?}"),
    };
    assert_eq!(subscription.cursor, 3);
    assert!(matches!(subscription.on_update(&delta(Some(3))), WatchStep::Skip));
    assert!(matches!(subscription.on_update(&delta(Some(4))), WatchStep::Tell(_)));
    assert!(matches!(subscription.on_update(&delta(Some(4))), WatchStep::Skip));
    let end = ActiveRequestUpdate::Completed(Json::Null);
    assert!(matches!(subscription.on_update(&end), WatchStep::End(_)));
    let closed = subscription.on_closed();
    assert_eq!(closed.result.unwrap().str_at("reason"), Some("请求已结束"));
    let lagged = subscription.on_lagged(None).error.unwrap();
    assert_eq!(lagged.message, "resync_required");
    assert_eq!(lagged.data.unwrap().u64_at("cursor"), Some(4));
}

#[test]
fn a_watch_of_a_run_that_ended_gets_its_end() {
    let ended = handle_subscribe(
        number(1),
        &watch(None),
        &run(RunStatus::Completed),
        Json::Null,
        false,
        stored_events(3),
        &Vec::new(),
    );
    match ended {
        WatchStart::Ended { reply, .. } => {
            assert_eq!(reply.unwrap().str_at("content"), Some("答"))
        }
        other => panic!("{other:?}"),
    }
    let lost = handle_subscribe(
        number(1),
        &watch(None),
        &run(RunStatus::Running),
        Json::Null,
        false,
        Vec::new(),
        &Vec::new(),
    );
    match lost {
        WatchStart::Ended { reply, .. } => {
            assert_eq!(reply.unwrap().str_at("reason"), Some("请求没有活动执行体"))
        }
        other => panic!("{other:?}"),
    }
}

#[test]
fn what_is_watched_is_found() {
    let p = subscribe_params(&object(vec![("request_id", Json::Unsigned(7))])).unwrap();
    assert!(p.session_id.is_none());
    assert_eq!(subscribe_params(&Json::Null).unwrap_err().0, -32602);
    let mut state = busy_state();
    assert_eq!(find_watched(&state.active, &p).unwrap(), Some(0));
    match watch_lookup(&state.active, &p).unwrap() {
        WatchLookup::Run(id) => assert_eq!(id, "run-1"),
        other => panic!("{other:?}"),
    }
    let idle = DaemonState::new("s", ApprovalBroker::new(), "/daemon.log");
    assert!(matches!(watch_lookup(&idle.active, &p), Ok(WatchLookup::Nothing)));
    match watch_lookup(&idle.active, &watch(None)).unwrap() {
        WatchLookup::Request { session_id } => assert_eq!(session_id, "s"),
        other => panic!("{other:?}"),
    }
    let elsewhere = ActiveKey { session_id: "t".to_owned(), request_id: number(7) };
    state.active.begin(elsewhere, &run(RunStatus::Running)).unwrap();
    assert_eq!(find_watched(&state.active, &p).unwrap_err().0, -32001);
    assert_eq!(find_watched(&state.active, &watch(None)).unwrap(), Some(0));
    let none = watched_run(&p, Ok(None)).unwrap_err().unwrap();
    assert_eq!(none.str_at("reason"), Some("请求未在执行"));
}

#[test]
fn questions_that_were_answered_are_not_asked_again() {
    let asked = StoredEvent {
        run_id: "run-1".to_owned(),
        seq: 1,
        event: "approval_required".to_owned(),
        data: object(vec![("approval", object(vec![("id", text("a"))]))]),
    };
    let update = stored_event_update(asked).unwrap();
    assert!(is_resolved_approval(&update, &Vec::new()));
    assert!(!is_resolved_approval(&update, &vec!["a".to_owned()]));
    let unknown = StoredEvent {
        run_id: "run-1".to_owned(),
        seq: 1,
        event: "else".to_owned(),
        data: Json::Null,
    };
    assert!(stored_event_update(unknown).is_none());
}

#[test]
fn independent_sessions_run_and_snapshot_without_blocking_each_other() {
    let mut state = busy_state();
    let other = ActiveKey { session_id: "t".to_owned(), request_id: number(8) };
    state.active.begin(other, &run(RunStatus::Running)).unwrap();
    let activity = session_activity(&state.active, &state.approvals, "s");
    assert_eq!(activity.active_requests, vec![number(7)]);
    assert_eq!(activity.status.name(), "running");
    assert_eq!(session_new("n").bool_at("created"), Some(true));
    state.active.end(&key());
    assert_eq!(session_activity(&state.active, &state.approvals, "s").status.name(), "idle");
    assert!(state.has_active_turns());
}

#[test]
fn dropped_stream_can_resubscribe_and_resolve_pending_approval() {
    let mut state = busy_state();
    state.approvals.register("a", &number(7), Some("s".to_owned()), "danger");
    let activity = session_activity(&state.active, &state.approvals, "s");
    assert_eq!(activity.status.name(), "waiting");
    let snapshot = session_resume("s", Vec::new(), &activity);
    assert_eq!(snapshot.bool_at("resumed"), Some(true));
    assert!(format!("{:?}", snapshot.get("pending_approvals").unwrap()).contains("danger"));
    assert!(format!("{:?}", snapshot.get("active_requests").unwrap()).contains('7'));
    assert!(state.approvals.respond("a").is_ok());
    assert_eq!(session_activity(&state.active, &state.approvals, "s").status.name(), "running");
}

#[test]
fn pages_of_a_session_are_counted() {
    let state = state();
    let activity = session_activity(&state.active, &state.approvals, "s");
    let history = vec![object(vec![]), object(vec![]), object(vec![])];
    let page = session_load_page("s", &history, 0, 2, &activity);
    assert_eq!(page.u64_at("total_messages"), Some(3));
    assert_eq!(page.bool_at("has_more"), Some(true));
    let page = session_trace_page("s", &history, 1, 2);
    assert_eq!(page.u64_at("total_records"), Some(3));
    assert_eq!(page.bool_at("has_more"), Some(false));
    assert_eq!(session_trace("s", Vec::new()).str_at("session_id"), Some("s"));
}

fn stored_session(id: &str, modified_at: Option<u64>) -> SessionInfo {
    SessionInfo {
        id: id.to_owned(),
        path: format!("/{id}"),
        active: false,
        message_count: 1,
        modified_at,
        preview: None,
        status: SessionStatus::Idle,
        active_requests: 0,
        updated_at: modified_at,
    }
}

#[test]
fn sessions_are_listed_with_the_current_one_first() {
    let state = busy_state();
    let listed = session_infos(
        vec![stored_session("old", Some(1)), stored_session("new", Some(2))],
        &vec![LoadedSession { id: "t".to_owned(), path: "/t".to_owned() }],
        "s",
        "/s",
        &state.active,
        &Vec::new(),
    );
    let ids = listed.iter().map(|s| s.id.as_str()).collect::<Vec<&str>>();
    assert_eq!(ids[0], "s");
    assert_eq!(ids.len(), 4);
    let new = ids.iter().position(|id| *id == "new").unwrap();
    let old = ids.iter().position(|id| *id == "old").unwrap();
    assert!(new < old);
    assert!(listed[0].active);
    assert_eq!(listed[0].status.name(), "running");
}

#[test]
fn sessions_are_found_where_they_are() {
    assert_eq!(requested_session(None, "s"), "s");
    assert_eq!(requested_session(Some("t"), "s"), "t");
    let loaded = vec!["t".to_owned()];
    assert!(matches!(session_source("s", "s", &loaded), SessionSource::Default));
    assert!(matches!(session_source("t", "s", &loaded), SessionSource::Loaded));
    assert!(matches!(session_source("u", "s", &loaded), SessionSource::Store));
    assert!(open_failed("坏".to_owned(), Ok(true)).is_ok());
    assert_eq!(open_failed("坏".to_owned(), Ok(false)).unwrap_err().0, -32602);
    assert_eq!(open_failed("坏".to_owned(), Err("读".to_owned())).unwrap_err().1, "读");
}

#[test]
fn digests_are_those_of_the_bytes() {
    assert_eq!(
        artifact_sha256(b"abc"),
        "ba7816bf8f01cfea414140de5dae2223b00361a396177a9cb410ff61f20015ad"
    );
    assert_eq!(hex_text(&vec![0, 15, 255]), "000fff");
}

fn receipt(digest: &str, artifact: Option<&[u8]>) -> ToolReceipt {
    ToolReceipt {
        round: 1,
        call_id: "c".to_owned(),
        status: "terminal".to_owned(),
        artifact_ref: Some("file".to_owned()),
        receipt: Some(object(vec![("output_sha256", text(digest))])),
        artifact: artifact.map(<[u8]>::to_vec),
    }
}

#[test]
fn audits_find_what_diverged() {
    let messages = Ok(vec![Message::text(Role::Assistant, "答")]);
    let trace = Ok(vec![
        TraceMark::TurnStarted { request_id: "7".to_owned() },
        TraceMark::TurnCompleted { request_id: "7".to_owned() },
        TraceMark::Other,
    ]);
    let done = run(RunStatus::Completed);
    let good = vec![receipt(&artifact_sha256(b"abc"), Some(b"abc"))];
    let audit = audit_run(&done, &messages, &trace, &good);
    assert_eq!(audit.str_at("diagnostic"), Some("no_detected_divergence"));
    assert_eq!(audit.get("trace").unwrap().u64_at("turn_started"), Some(1));
    let bad = vec![receipt("0", Some(b"abc"))];
    let audit = audit_run(&done, &messages, &trace, &bad);
    assert_eq!(audit.str_at("diagnostic"), Some("artifact_missing_or_corrupt"));
    let gone = vec![receipt("0", None)];
    let audit = audit_run(&done, &messages, &trace, &gone);
    assert_eq!(audit.str_at("diagnostic"), Some("artifact_missing_or_corrupt"));
    let audit = audit_run(&done, &Ok(Vec::new()), &trace, &Vec::new());
    assert_eq!(audit.str_at("diagnostic"), Some("jsonl_missing_or_diverged"));
    let unknown = run(RunStatus::UnknownAfterRestart);
    let audit = audit_run(&unknown, &messages, &Err("坏".to_owned()), &Vec::new());
    assert_eq!(audit.str_at("diagnostic"), Some("control_state_unknown"));
    assert_eq!(audit.get("trace").unwrap().str_at("error"), Some("坏"));
}

#[test]
fn a_daemon_that_nobody_needs_ends() {
    let mut life = Lifecycle::new();
    assert!(!life.is_done(&state(), u64::MAX));
    life.on_accept();
    assert!(!life.is_done(&state(), u64::MAX));
    life.on_done(10);
    assert!(!life.is_done(&state(), 10 + IDLE_EXIT_MS - 1));
    assert!(life.is_done(&state(), 10 + IDLE_EXIT_MS));
    assert!(!life.is_done(&busy_state(), u64::MAX));
    let mut kept = state();
    kept.cron = Some(CronManager::new(CronStore::new(), 1_000, 0, Some(1)));
    assert!(kept.has_persistent_background_work());
    assert!(!life.is_done(&kept, u64::MAX));
}

#[test]
fn a_shutdown_stops_what_runs_and_its_questions() {
    let mut state = busy_state();
    state.approvals.register("a", &number(7), Some("s".to_owned()), "吗");
    state.approvals.register("b", &number(8), Some("s".to_owned()), "吗");
    assert_eq!(state.begin_shutdown(), vec!["a"]);
    assert!(state.shutdown.is_cancelled());
    assert!(state.active.entries[0].1.cancellation.is_cancelled());
    assert_eq!(state.approvals.pending().len(), 1);
}

#[test]
fn a_question_needs_a_request_and_a_listener() {
    let mut broker = ApprovalBroker::new();
    assert_eq!(
        broker.request(None, "a", "吗").unwrap_err(),
        "当前没有可接收审批事件的 daemon 请求"
    );
    assert!(broker.pending().is_empty());
    let context =
        ApprovalContext { request_id: number(3), session_id: Some("s".to_owned()) };
    let (request, id) = approval_of(broker.request(Some(&context), "a", "吗").unwrap());
    assert_eq!(request, number(3));
    assert_eq!(id, "a");
    assert_eq!(broker.pending_for_session(Some("s")).len(), 1);
    assert_eq!(broker.not_announced("a"), "审批事件接收端已断开");
    assert!(broker.pending().is_empty());
    broker.request(Some(&context), "b", "吗").unwrap();
    assert_eq!(broker.on_answer("b", Some(true)), Ok(true));
    assert_eq!(broker.on_answer("b", None).unwrap_err(), "审批请求被取消: b");
    assert!(broker.pending().is_empty());
    assert!(answer_delivered("b", true).is_ok());
    assert_eq!(answer_delivered("b", false).unwrap_err(), "审批请求已结束: b");
}

#[test]
fn an_answer_that_nobody_heard_leaves_the_end_unknown() {
    let (failure, end) = answer_failed("断".to_owned(), Some("answered"));
    assert_eq!(failure, (-32001, "断".to_owned()));
    let end = end.unwrap();
    assert!(end.status == RunStatus::UnknownAfterRestart);
    assert_eq!(end.error, Some((-32002, "审批执行体已消失".to_owned())));
    assert!(answer_failed("断".to_owned(), Some("pending")).1.is_none());
    assert_eq!(session_unreadable("坏"), (-32603, "JSONL 读取失败: 坏".to_owned()));
}

#[test]
fn calls_are_answered_under_their_names() {
    let id = || "s".to_owned();
    let named = [
        (Call::InteractionRead { interaction_id: id() }, "interaction"),
        (Call::InteractionList { session_id: id() }, "interactions"),
        (Call::QueueList { session_id: id() }, "items"),
        (Call::QueueRead { session_id: id(), run_id: id() }, "item"),
        (Call::RunTools { run_id: id() }, "receipts"),
        (Call::RunEvents { run_id: id(), after_seq: None, limit: None }, "events"),
    ];
    for (call, name) in named {
        assert_eq!(call.reply_name(), Some(name));
    }
    assert_eq!(Call::SessionNew.reply_name(), None);
    assert_eq!(events_window(None, None), (0, 200));
    assert_eq!(events_window(Some(7), Some(3)), (7, 3));
}

#[test]
fn a_new_session_is_the_current_one() {
    let mut state = busy_state();
    let before = state.default_session.clone();
    let answer = state.session_opened("n");
    assert_eq!(answer.str_at("session_id"), Some("n"));
    assert_eq!(state.current_session, "n");
    assert_eq!(state.default_session, before);
    assert_eq!(state.active.entries.len(), 1);
}

#[test]
fn a_question_may_come_as_a_list() {
    let listed = Json::Array(vec![text("a"), Json::Unsigned(7), text("danger")]);
    let info = info_from_json(&listed).unwrap();
    assert_eq!((info.id.as_str(), info.prompt.as_str()), ("a", "danger"));
    assert_eq!(info.request_id, number(7));
    assert!(info_from_json(&Json::Array(vec![text("a"), Json::Unsigned(7)])).is_none());
}

#[test]
fn a_watch_begins_where_it_is_asked_to() {
    let from = |params: &Json| subscribe_params(params).unwrap().replay_after();
    assert_eq!(from(&object(vec![("request_id", Json::Unsigned(7))])), 0);
    assert_eq!(from(&Json::Array(vec![Json::Unsigned(7), Json::Null, Json::Unsigned(5)])), 5);
}

#[test]
fn an_update_is_put_at_its_place() {
    match place_update(delta(None), "run-2", 9) {
        ActiveRequestUpdate::Event { run_id, seq, .. } => {
            assert_eq!((run_id.as_deref(), seq), (Some("run-2"), Some(9)));
        }
        other => panic!("{other:?}"),
    }
}
