use my_agent::json::Json;
use my_agent::loop_engine::{
    fingerprint_json, model_trace, plan_waves, tool_finished, tool_started, trace_response_value,
    without_images, AdmissionError, AgentEvent, CancellationToken, LoopEngine, ModelStream,
    RepeatDetector, StreamEvent, ToolExecution, ToolFingerprint, ToolOutput, TurnLoop, TurnStep,
    DEFAULT_PROGRESS_CHECKPOINT_ROUNDS, PROGRESS_CHECKPOINT_REMINDER, REPETITION_ABORT_THRESHOLD,
};
use my_agent::provider::{AssemblyError, Message, Response, Role, ToolCall};
use my_agent::trace::{messages_for_model, SessionTraceRecord};

fn call(id: &str, name: &str) -> ToolCall {
    ToolCall {
        id: id.to_owned(),
        name: name.to_owned(),
        arguments: Json::Object(vec![("value".to_owned(), Json::Str("same".to_owned()))]),
    }
}

fn executed(call: &ToolCall, outcome: Result<&str, &str>) -> ToolExecution {
    let outcome = match outcome {
        Ok(content) => Ok(ToolOutput {
            content: content.to_owned(),
            transient_messages: Vec::new(),
        }),
        Err(error) => Err(error.to_owned()),
    };
    tool_finished(call, outcome, 1, 0).1
}

fn run_calls(turn: &mut TurnLoop, calls: Vec<ToolCall>, outcome: Result<&str, &str>) -> TurnStep {
    match turn.on_response(Response::ToolCalls(calls), None, None) {
        TurnStep::Execute { calls, .. } => {
            let results = calls.iter().map(|c| executed(c, outcome)).collect();
            turn.on_results(results)
        }
        other => panic!("{other:?}"),
    }
}

#[test]
fn executes_tool_and_pairs_result_by_call_id() {
    let mut turn = LoopEngine::new().start_turn();
    assert_eq!(turn.begin_round().unwrap().round, 1);
    let step = run_calls(&mut turn, vec![call("call-read-1", "read_file")], Ok("这是 README 内容"));
    match step {
        TurnStep::Continue { records } => {
            assert_eq!(records.len(), 1);
            assert_eq!(records[0].tool_call_id.as_deref(), Some("call-read-1"));
            assert_eq!(records[0].content.as_deref(), Some("这是 README 内容"));
        }
        other => panic!("{other:?}"),
    }
    turn.begin_round().unwrap();
    match turn.on_response(Response::Text("总结完成".to_owned()), None, None) {
        TurnStep::Done { content, record } => {
            assert_eq!(content, "总结完成");
            assert_eq!(record.role, Role::Assistant);
        }
        other => panic!("{other:?}"),
    }
}

#[test]
fn stops_after_consecutive_tool_failures() {
    let mut turn = LoopEngine::ephemeral(10).start_turn();
    for round in 1..=3 {
        turn.begin_round().unwrap();
        let step = run_calls(
            &mut turn,
            vec![call(&format!("call-fail-{round}"), "failing_tool")],
            Err("坏"),
        );
        match (round, step) {
            (3, TurnStep::Stop { error, .. }) => assert!(error.contains("连续 3 次工具执行失败")),
            (1 | 2, TurnStep::Continue { .. }) => {}
            (_, other) => panic!("{other:?}"),
        }
    }
}

#[test]
fn a_success_clears_the_failures() {
    let mut turn = LoopEngine::new().start_turn();
    turn.begin_round().unwrap();
    run_calls(&mut turn, vec![call("a", "t")], Err("坏"));
    assert_eq!(turn.failures, 1);
    run_calls(&mut turn, vec![call("b", "t")], Ok("好"));
    assert_eq!(turn.failures, 0);
}

#[test]
fn stops_at_round_limit() {
    let mut turn = LoopEngine::ephemeral(1).start_turn();
    turn.begin_round().unwrap();
    assert!(matches!(
        turn.on_response(Response::ToolCalls(Vec::new()), None, None),
        TurnStep::Retry { .. }
    ));
    assert!(turn.begin_round().unwrap_err().contains("最大轮次"));
}

#[test]
fn gently_reminds_after_three_identical_tool_results_without_disabling_tool() {
    let mut turn = LoopEngine::new().start_turn();
    for index in 1..=3 {
        let plan = turn.begin_round().unwrap();
        assert!(!plan.reminder);
        run_calls(&mut turn, vec![call(&format!("repeat-{index}"), "repeat_probe")], Ok("same"));
    }
    let plan = turn.begin_round().unwrap();
    assert!(plan.reminder);
    let messages = turn.round_messages(Vec::new(), plan);
    assert!(messages.iter().any(|message| {
        message.role == Role::System
            && message.content.as_deref().is_some_and(|c| c.contains("检测到连续重复"))
    }));
    assert!(!turn.begin_round().unwrap().reminder);
}

#[test]
fn stops_a_genuine_identical_no_progress_loop() {
    let mut turn = LoopEngine::new().start_turn();
    for index in 1..=REPETITION_ABORT_THRESHOLD {
        turn.begin_round().unwrap();
        let step = run_calls(&mut turn, vec![call("call-repeat", "repeat_probe")], Ok("same"));
        match step {
            TurnStep::Stop { error, .. } => {
                assert_eq!(index, REPETITION_ABORT_THRESHOLD);
                assert!(error.contains("无进展循环"));
                assert!(!error.contains("最大轮次"));
            }
            TurnStep::Continue { .. } => assert!(index < REPETITION_ABORT_THRESHOLD),
            other => panic!("{other:?}"),
        }
    }
}

#[test]
fn main_turn_continues_past_fifty_rounds_and_completes() {
    let mut turn = LoopEngine::new().start_turn();
    for index in 0..=DEFAULT_PROGRESS_CHECKPOINT_ROUNDS {
        let plan = turn.begin_round().unwrap();
        assert_eq!(plan.checkpoint, index == DEFAULT_PROGRESS_CHECKPOINT_ROUNDS);
        if plan.checkpoint {
            let messages = turn.round_messages(Vec::new(), plan);
            assert!(messages.iter().any(|message| {
                message.role == Role::System
                    && message.content.as_deref() == Some(PROGRESS_CHECKPOINT_REMINDER)
            }));
        }
        let step = run_calls(
            &mut turn,
            vec![call(&format!("long-call-{index}"), "side_effect")],
            Ok(&format!("{index}")),
        );
        assert!(matches!(step, TurnStep::Continue { .. }));
    }
    turn.begin_round().unwrap();
    assert!(matches!(
        turn.on_response(Response::Text("长任务完成".to_owned()), None, None),
        TurnStep::Done { content, .. } if content == "长任务完成"
    ));
}

#[test]
fn assembly_failure_rejects_the_whole_wave_before_side_effects() {
    let mut turn = LoopEngine::new().start_turn();
    turn.begin_round().unwrap();
    let failed = Response::ToolAssemblyFailed(AssemblyError {
        code: "invalid_json".to_owned(),
        message: "EOF".to_owned(),
    });
    match turn.on_response(failed, None, None) {
        TurnStep::Retry { record } => {
            let said = record.content.unwrap();
            assert!(said.contains("tool_call_assembly_error:invalid_json"));
        }
        other => panic!("{other:?}"),
    }
}

#[test]
fn truncated_tool_batch_is_rejected_before_side_effects_and_retried() {
    let mut turn = LoopEngine::new().start_turn();
    turn.begin_round().unwrap();
    let truncated = Response::ToolAssemblyFailed(AssemblyError {
        code: "output_truncated".to_owned(),
        message: "截断".to_owned(),
    });
    match turn.on_response(truncated, None, None) {
        TurnStep::Retry { record } => assert!(record
            .content
            .unwrap()
            .contains("tool_call_assembly_error:output_truncated")),
        other => panic!("{other:?}"),
    }
    assert!(matches!(
        turn.on_response(Response::Text("已改为安全回答".to_owned()), None, None),
        TurnStep::Done { content, .. } if content == "已改为安全回答"
    ));
}

#[test]
fn admission_failure_rejects_all_calls_before_side_effects() {
    let mut turn = LoopEngine::new().start_turn();
    turn.begin_round().unwrap();
    let calls = vec![call("valid", "first_effect"), call("invalid", "second_effect")];
    let refused = AdmissionError { code: "invalid_arguments".to_owned(), message: "value".to_owned() };
    assert!(matches!(
        turn.on_response(Response::ToolCalls(calls), None, Some(refused)),
        TurnStep::Retry { .. }
    ));
}

#[test]
fn runs_consecutive_read_only_calls_in_parallel() {
    assert_eq!(
        plan_waves(&vec![true, true, false, false, true]),
        vec![(0, 2), (2, 3), (3, 4), (4, 5)]
    );
    assert!(plan_waves(&Vec::new()).is_empty());
}

#[test]
fn streams_thinking_before_text_and_persists_it_in_session_history() {
    let mut stream = ModelStream::new();
    let events = stream.consume(StreamEvent::Thinking("想".to_owned()), 1);
    assert_eq!(events, vec![AgentEvent::ThinkingDelta("想".to_owned())]);
    let events = stream.consume(StreamEvent::Answer(Some("答".to_owned())), 5);
    assert_eq!(
        events,
        vec![AgentEvent::ThinkingFinished, AgentEvent::TextDelta("答".to_owned())]
    );
    assert_eq!(stream.first_delta_ms, Some(5));
    assert!(stream.finish_thinking().is_empty());
    assert_eq!(stream.into_thinking().as_deref(), Some("想"));
    assert_eq!(ModelStream::new().into_thinking(), None);
}

#[test]
fn sends_image_transiently_without_persisting_base64() {
    let mut message = Message::text(Role::User, "看图");
    message.image_urls = vec!["data:image/png;base64,AAAA".to_owned()];
    let plain = without_images(&vec![message]);
    assert!(plain[0].image_urls.is_empty());
    assert!(plain[0].content.as_deref().unwrap().contains("看图"));
}

#[test]
fn audited_turn_records_exact_model_input_response_and_timing() {
    let engine = LoopEngine::new();
    let label = Some("web-request-9");
    let mut records: Vec<SessionTraceRecord> = Vec::new();
    records.extend(engine.trace_turn_started(label, 10, "审计问题"));
    let mut turn = engine.start_turn();
    let plan = turn.begin_round().unwrap();
    let round = plan.round;
    let asked = turn.round_messages(vec![Message::text(Role::User, "审计问题")], plan);
    records.extend(engine.trace_model_request(
        label,
        11,
        round,
        "openai-chat",
        messages_for_model(&asked, true),
        Vec::new(),
    ));
    let outcome = Ok(Response::Text("审计回答".to_owned()));
    records.extend(engine.trace_model_response(label, 15, round, 4, Some(2), &outcome, ""));
    let answer = match turn.on_response(outcome.unwrap(), None, None) {
        TurnStep::Done { content, .. } => content,
        other => panic!("{other:?}"),
    };
    records.extend(engine.trace_turn_completed(label, 16, 6, &Ok(answer.clone())));

    assert_eq!(answer, "审计回答");
    assert_eq!(records.len(), 4);
    assert!(matches!(
        records.first(),
        Some(SessionTraceRecord::TurnStarted { request_id, input, timestamp_ms: 10 })
            if request_id == "web-request-9" && input == "审计问题"
    ));
    assert!(records.iter().any(|record| matches!(
        record,
        SessionTraceRecord::ModelRequest { request_id, messages, round: 1, provider, .. }
            if request_id == "web-request-9"
                && provider == "openai-chat"
                && messages.iter().any(|message| message.content.as_deref() == Some("审计问题"))
    )));
    assert!(records.iter().any(|record| matches!(
        record,
        SessionTraceRecord::ModelResponse {
            response: Some(response),
            success: true,
            duration_ms: 4,
            first_delta_ms: Some(2),
            error: None,
            ..
        } if response.str_at("content") == Some("审计回答")
    )));
    assert!(matches!(
        records.last(),
        Some(SessionTraceRecord::TurnCompleted { success: true, duration_ms: 6, error: None, .. })
    ));
}

#[test]
fn failures_are_traced_with_their_errors() {
    let engine = LoopEngine::new();
    let label = Some("r");
    let failed: Result<Response, String> = Err("断开".to_owned());
    match engine.trace_model_response(label, 1, 2, 3, None, &failed, "") {
        Some(SessionTraceRecord::ModelResponse { success, response, error, round, .. }) => {
            assert!(!success);
            assert!(response.is_none());
            assert_eq!(error.as_deref(), Some("断开"));
            assert_eq!(round, 2);
        }
        other => panic!("{other:?}"),
    }
    let broken = Ok(Response::ToolAssemblyFailed(AssemblyError {
        code: "x".to_owned(),
        message: "y".to_owned(),
    }));
    match engine.trace_model_response(label, 1, 2, 3, None, &broken, "想") {
        Some(SessionTraceRecord::ModelResponse { success, response, error, .. }) => {
            assert!(!success);
            let response = response.unwrap();
            assert_eq!(response.str_at("code"), Some("x"));
            assert_eq!(response.str_at("thinking"), Some("想"));
            assert_eq!(error.as_deref(), Some("y"));
        }
        other => panic!("{other:?}"),
    }
    match engine.trace_turn_completed(label, 9, 8, &Err("坏".to_owned())) {
        Some(SessionTraceRecord::TurnCompleted { success, error, .. }) => {
            assert!(!success);
            assert_eq!(error.as_deref(), Some("坏"));
        }
        other => panic!("{other:?}"),
    }
    let value = trace_response_value(&Response::ToolCalls(vec![call("a", "exec")]), Some("想"));
    assert!(format!("{value:?}").contains("exec"));
    assert!(model_trace(&Ok(Response::Text("好".to_owned())), "").success);
}

#[test]
fn tool_calls_are_traced_from_start_to_end() {
    let engine = LoopEngine::new();
    let call = call("a", "exec");
    match engine.trace_tool_started(Some("r"), 5, 2, &call) {
        Some(SessionTraceRecord::ToolStarted { tool_call_id, name, arguments, round, .. }) => {
            assert_eq!((tool_call_id.as_str(), name.as_str(), round), ("a", "exec", 2));
            assert_eq!(arguments.str_at("value"), Some("same"));
        }
        other => panic!("{other:?}"),
    }
    match engine.trace_tool_finished(Some("r"), 7, 2, &call, 2, &Err("坏".to_owned())) {
        Some(SessionTraceRecord::ToolFinished { success, output, error, duration_ms, .. }) => {
            assert!(!success);
            assert_eq!(output, "工具执行错误: 坏");
            assert_eq!(error.as_deref(), Some("工具执行错误: 坏"));
            assert_eq!(duration_ms, 2);
        }
        other => panic!("{other:?}"),
    }
    match engine.trace_tool_finished(Some("r"), 7, 2, &call, 2, &Ok("好".to_owned())) {
        Some(SessionTraceRecord::ToolFinished { success, output, error, .. }) => {
            assert!(success);
            assert_eq!(output, "好");
            assert!(error.is_none());
        }
        other => panic!("{other:?}"),
    }
    assert!(engine.trace_tool_started(None, 5, 2, &call).is_none());
    assert!(LoopEngine::ephemeral(3).trace_turn_started(Some("r"), 1, "问").is_none());
}

#[test]
fn a_limited_turn_asks_no_more_often_than_it_may() {
    let mut turn = LoopEngine::ephemeral(4).start_turn();
    let mut asked = 0;
    let error = loop {
        match turn.begin_round() {
            Ok(_) => asked += 1,
            Err(error) => break error,
        }
        let name = format!("t{asked}");
        run_calls(&mut turn, vec![call("c", &name)], Ok("好"));
    };
    assert_eq!(asked, 4);
    assert_eq!(error, "ReAct 循环达到最大轮次 4，已停止");
    assert!(LoopEngine::ephemeral(0).start_turn().begin_round().is_err());
}

#[test]
fn the_run_at_the_end_of_a_history_is_counted() {
    let print = |n: u64| vec![ToolFingerprint { tool_name: "t".to_owned(), arguments: n, result: 0 }];
    let mut detector = RepeatDetector::new();
    let counts: Vec<usize> =
        [1, 1, 2, 1, 1, 1].into_iter().map(|n| detector.observe(print(n))).collect();
    assert_eq!(counts, vec![1, 2, 1, 1, 2, 3]);
}

#[test]
fn tools_tell_what_they_do() {
    assert_eq!(
        tool_started(&call("a", "exec"), 2),
        AgentEvent::ToolStarted { call_id: "a".to_owned(), name: "exec".to_owned(), round: 2 }
    );
    let (event, execution) = tool_finished(&call("a", "exec"), Err("坏".to_owned()), 2, 7);
    match event {
        AgentEvent::ToolFinished { call_id, output, success, error, duration_ms, .. } => {
            assert_eq!(call_id, "a");
            assert_eq!(output, "工具执行错误: 坏");
            assert!(!success);
            assert_eq!(error.as_deref(), Some("工具执行错误: 坏"));
            assert_eq!(duration_ms, 7);
        }
        other => panic!("{other:?}"),
    }
    assert!(execution.failed);
}

#[test]
fn fingerprints_tell_documents_apart() {
    let a = Json::Str("a".to_owned());
    let b = Json::Str("b".to_owned());
    assert_eq!(fingerprint_json(&a), fingerprint_json(&a.clone()));
    assert_ne!(fingerprint_json(&a), fingerprint_json(&b));
    let print = |n: u64| {
        vec![ToolFingerprint { tool_name: "t".to_owned(), arguments: n, result: 0 }]
    };
    let mut detector = RepeatDetector::new();
    assert_eq!(detector.observe(print(1)), 1);
    assert_eq!(detector.observe(print(1)), 2);
    assert_eq!(detector.observe(print(2)), 1);
}

#[test]
fn a_token_is_cancelled_once() {
    let mut token = CancellationToken::new();
    assert!(!token.is_cancelled());
    assert!(token.cancel());
    assert!(!token.cancel());
    assert!(token.is_cancelled());
    assert!(LoopEngine::ephemeral(3).for_session().persistent);
}
