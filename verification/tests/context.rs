use my_agent::config::{check_environment, EnvVar, Environment};
use my_agent::context::{
    apply_summary, compression_split, estimate_messages, estimate_text_tokens, latest_query,
    load_project_rules, merge_summaries, split_for_token_budget, summary_answer, summary_request,
    summary_source, summary_step, truncate_chars, try_estimate_messages, CompressionMode,
    ContextConfig, ContextManager, ContextStep, Summary, SummaryStep,
};
use my_agent::provider::{ApiType, AssemblyError, Message, Response, Role, ToolCall};

fn settings() -> ContextConfig {
    ContextConfig {
        token_budget: 10_000,
        recent_messages: 12,
        mild_compression_percent: 60,
        strong_compression_percent: 85,
        summary_chunk_tokens: 2_000,
    }
}

fn content(message: &Message) -> &str {
    message.content.as_deref().unwrap()
}

#[test]
fn token_estimate_treats_chinese_more_densely_than_ascii() {
    assert_eq!(estimate_text_tokens("中文中文中文"), 4);
    assert_eq!(estimate_text_tokens("abcdefghijkl"), 3);
}

#[test]
fn compresses_old_messages_and_keeps_recent_messages() {
    let config = ContextConfig {
        token_budget: 256,
        recent_messages: 2,
        mild_compression_percent: 1,
        strong_compression_percent: 2,
        summary_chunk_tokens: 2_000,
    };
    let manager = ContextManager::new("/workspace", config, None);
    let history = vec![
        Message::text(Role::User, "旧问题"),
        Message::text(Role::Assistant, "旧回答"),
        Message::text(Role::User, "新问题"),
        Message::text(Role::Assistant, "新回答"),
    ];
    let environment = manager.dynamic_environment(None, None, None);
    let context = manager.compose(&history, &environment);
    assert_eq!(manager.compression_mode(&context, "[]"), Some(CompressionMode::Strong));
    let split = compression_split(&history, 2, CompressionMode::Strong);
    assert_eq!(split, 2);
    let history = apply_summary(&history, split, "目标和决策摘要");

    assert_eq!(history.len(), 3);
    assert!(content(&history[0]).contains("目标和决策摘要"));
    assert_eq!(content(&history[1]), "新问题");
    assert_eq!(content(&history[2]), "新回答");
    let prepared = manager.compose(&history, &environment);
    assert_eq!(prepared.first().unwrap().role, Role::System);
    assert!(content(prepared.last().unwrap()).contains("cwd="));
}

#[test]
fn mild_gate_only_summarizes_the_oldest_slice() {
    let config = ContextConfig {
        token_budget: 100_000,
        recent_messages: 2,
        mild_compression_percent: 1,
        strong_compression_percent: 90,
        summary_chunk_tokens: 100_000,
    };
    let manager = ContextManager::new("/workspace", config, None);
    let history = (0..8)
        .map(|index: usize| {
            Message::text(Role::User, &format!("消息-{index}-{}", "x".repeat(1_000)))
        })
        .collect::<Vec<Message>>();
    let context = manager.compose(&history, &manager.dynamic_environment(None, None, None));
    assert_eq!(manager.compression_mode(&context, "[]"), Some(CompressionMode::Mild));
    let split = compression_split(&history, 2, CompressionMode::Mild);
    let history = apply_summary(&history, split, "温和摘要");

    assert_eq!(history.len(), 7);
    assert!(content(&history[0]).contains("温和摘要"));
    assert!(content(&history[1]).starts_with("消息-2-"));
    assert!(content(&history[6]).starts_with("消息-7-"));
}

#[test]
fn a_short_conversation_is_left_alone() {
    let manager = ContextManager::new("/w", settings(), None);
    let context = manager.compose(&vec![Message::text(Role::User, "短")], "环境");
    assert_eq!(manager.compression_mode(&context, "[]"), None);
    assert_eq!(compression_split(&vec![Message::text(Role::User, "短")], 2, CompressionMode::Mild), 0);
}

#[test]
fn a_result_is_not_torn_from_its_call() {
    let call = ToolCall {
        id: "c".to_owned(),
        name: "exec".to_owned(),
        arguments: my_agent::json::Json::Null,
    };
    let history = vec![
        Message::text(Role::User, "一"),
        Message::text(Role::Assistant, "调用"),
        Message::tool_result(&call, "果"),
        Message::tool_result(&call, "果"),
        Message::text(Role::Assistant, "答"),
    ];
    assert_eq!(compression_split(&history, 2, CompressionMode::Strong), 1);
    assert_eq!(compression_split(&history, 1, CompressionMode::Strong), 4);
}

#[test]
fn injects_current_plan_into_last_dynamic_block() {
    let manager = ContextManager::new("/workspace", settings(), None);
    let environment =
        manager.dynamic_environment(Some("main\n"), Some("当前任务计划\n[>] 1 · 实现功能"), None);
    let prepared = manager.compose(&Vec::new(), &environment);
    let last = content(prepared.last().unwrap());
    assert!(last.contains("当前任务计划"));
    assert!(last.contains("[>] 1 · 实现功能"));
    assert!(last.contains("git_branch=main"));
}

#[test]
fn orders_context_from_stable_prefix_to_dynamic_suffix() {
    let rules = load_project_rules(&"# 固定项目规则\n始终先测试".as_bytes().to_vec());
    let manager = ContextManager::new("/workspace", settings(), Some(rules));
    let history = vec![Message::text(Role::User, "本轮问题")];
    let prepared = manager.compose(&history, &manager.dynamic_environment(None, None, None));

    assert_eq!(prepared.len(), 4);
    assert!(content(&prepared[0]).contains("编码 Agent"));
    assert!(content(&prepared[1]).contains("固定项目规则"));
    assert_eq!(content(&prepared[2]), "本轮问题");
    assert!(content(&prepared[3]).starts_with("动态环境"));
}

#[test]
fn rules_that_are_no_text_are_read_as_far_as_they_go() {
    assert_eq!(load_project_rules(&vec![b'a', 0xff, b'b']), "a\u{fffd}b");
    let long = vec![b'x'; 200_000];
    assert!(load_project_rules(&long).len() < 200_000);
}

#[test]
fn settings_of_a_context_are_read() {
    let none = EnvVar::Missing;
    let config = ContextConfig::from_env(&none, &none, &none, &none).unwrap();
    assert_eq!(config.mild_compression_percent, 60);
    assert_eq!(config.strong_compression_percent, 85);
    let small = EnvVar::Value("100".to_owned());
    assert_eq!(
        ContextConfig::from_env(&small, &none, &none, &none).unwrap_err(),
        "CONTEXT_TOKEN_BUDGET 不能小于 256"
    );
    let zero = EnvVar::Value("0".to_owned());
    assert_eq!(
        ContextConfig::from_env(&none, &zero, &none, &none).unwrap_err(),
        "CONTEXT_RECENT_MESSAGES 不能为 0"
    );
    assert!(ContextConfig::from_env(&none, &none, &zero, &none)
        .unwrap_err()
        .starts_with("压缩阈值必须满足"));
    let word = EnvVar::Value("x".to_owned());
    assert!(ContextConfig::from_env(&word, &none, &none, &none).is_err());
    let budget = EnvVar::Value("300".to_owned());
    assert_eq!(
        ContextConfig::from_env(&budget, &none, &none, &none).unwrap().summary_chunk_tokens,
        128
    );
}

#[test]
fn long_texts_are_summed_up_in_parts() {
    assert!(matches!(summary_step("短", 0, 100), SummaryStep::Ask(_)));
    let long = "段落\n".repeat(400);
    match summary_step(&long, 0, 100) {
        SummaryStep::AskEach(parts) => {
            assert!(parts.len() > 1);
            assert_eq!(parts.concat(), long);
        }
        other => panic!("{other:?}"),
    }
    assert!(matches!(summary_step(&long, 100, 100), SummaryStep::Cut(_)));
    assert_eq!(merge_summaries(&vec!["一".to_owned(), "二".to_owned()]), "一\n\n二");
    let request = summary_request("源");
    assert_eq!(request.len(), 2);
    assert_eq!(content(&request[1]), "源");
}

#[test]
fn a_summary_is_text() {
    assert_eq!(summary_answer(Response::Text("摘要".to_owned())).unwrap(), "摘要");
    assert_eq!(
        summary_answer(Response::ToolCalls(Vec::new())).unwrap_err(),
        "模型在上下文压缩时返回了工具调用"
    );
    let failed = Response::ToolAssemblyFailed(AssemblyError {
        code: "invalid_json".to_owned(),
        message: "坏".to_owned(),
    });
    assert_eq!(
        summary_answer(failed).unwrap_err(),
        "模型在上下文压缩时产生无效工具调用（invalid_json）：坏"
    );
}

#[test]
fn texts_are_cut_and_split() {
    assert_eq!(truncate_chars("中文字", 5), "中文字");
    assert!(truncate_chars("中文字符", 2).starts_with("中文"));
    assert_eq!(split_for_token_budget("abc", 1), vec!["a", "b", "c"]);
    assert_eq!(split_for_token_budget("abcdefg", 2), vec!["abcde", "fg"]);
    assert!(split_for_token_budget("", 1).is_empty());
}

#[test]
fn a_conversation_is_counted_with_its_messages() {
    let one = vec![Message::text(Role::User, "abcd")];
    let two = vec![Message::text(Role::User, "abcd"), Message::text(Role::User, "abcd")];
    assert_eq!(estimate_messages(&two), 2 * estimate_messages(&one));
    assert_eq!(try_estimate_messages(&one), Some(estimate_messages(&one)));
    assert_eq!(estimate_messages(&Vec::new()), 0);
}

#[test]
fn the_last_question_is_looked_for() {
    let history = vec![
        Message::text(Role::User, "一"),
        Message::text(Role::User, "二"),
        Message::text(Role::Assistant, "答"),
    ];
    assert_eq!(latest_query(&history), "二");
    assert_eq!(latest_query(&Vec::new()), "");
}

#[test]
fn an_overflow_is_answered_by_a_summary() {
    let manager = ContextManager::new("/w", settings(), None);
    assert_eq!(manager.token_budget(), 10_000);
    assert_eq!(manager.with_token_budget(5).token_budget(), 5);
    assert_eq!(manager.with_provider().token_budget(), 10_000);
    let few = vec![Message::text(Role::User, "一")];
    assert_eq!(manager.overflow_split(&few), 0);
    assert!(manager.compact_for_overflow(&few, "摘要").is_none());
    let many = (0..30).map(|_| Message::text(Role::User, "x")).collect::<Vec<Message>>();
    let split = manager.overflow_split(&many);
    assert!(split > 0);
    let compact = manager.compact_for_overflow(&many, "摘要").unwrap();
    assert!(compact.len() < many.len());
    assert!(compact.iter().any(|m| content(m).contains("摘要")));
}

#[test]
fn contexts_are_prepared_and_compressed() {
    let manager = ContextManager::new("/w", settings(), None);
    let short = vec![Message::text(Role::User, "短")];
    match manager.prepare(&short, "环境", "[]") {
        ContextStep::Ready(context) => assert_eq!(context.len(), 3),
        other => panic!("{other:?}"),
    }
    let mut long = (0..20)
        .map(|_| Message::text(Role::User, &"x".repeat(4_000)))
        .collect::<Vec<Message>>();
    let split = match manager.prepare(&long, "环境", "[]") {
        ContextStep::Summarise { split } => split,
        other => panic!("{other:?}"),
    };
    assert_eq!(split, 8);
    manager.compress_history(&mut long, split, "摘要");
    assert_eq!(long.len(), 13);
    assert_eq!(content(&long[0]), "此前对话摘要：\n摘要");
}

#[test]
fn a_long_text_is_summed_up_pass_by_pass() {
    let mut summary = Summary::begin("短", 100);
    assert_eq!(summary.next_source(), Some("短"));
    summary = summary.on_summary("摘要".to_owned(), 100);
    assert!(matches!(&summary, Summary::Done(t) if t == "摘要"));
    assert!(summary.next_source().is_none());

    let source = "x".repeat(900);
    let mut summary = Summary::begin(&source, 100);
    let mut asked = String::new();
    let mut requests = 0;
    while let Some(part) = summary.next_source().map(str::to_owned) {
        requests += 1;
        if requests <= 3 {
            asked.push_str(&part);
        } else {
            assert_eq!(part, "一\n\n一\n\n一");
        }
        summary = summary.on_summary("一".to_owned(), 100);
    }
    assert_eq!(asked, source);
    assert_eq!(requests, 4);
}

#[test]
fn a_text_that_does_not_get_shorter_is_cut_in_the_end() {
    let source = "x".repeat(1_000);
    let mut summary = Summary::begin(&source, 100);
    let mut requests = 0;
    while let Some(part) = summary.next_source().map(str::to_owned) {
        requests += 1;
        summary = summary.on_summary(part, 100);
    }
    assert!(requests > 8);
    assert!(matches!(&summary, Summary::Done(t) if t.ends_with("…[摘要已截断]")));
}

#[test]
fn the_check_and_the_context_agree() {
    let read = |name: &str, vars: &Vec<(String, EnvVar)>| {
        vars.iter()
            .find(|(key, _)| key == name)
            .map(|(_, value)| match value {
                EnvVar::Value(s) => EnvVar::Value(s.clone()),
                _ => EnvVar::Missing,
            })
            .unwrap_or(EnvVar::Missing)
    };
    let agreed = |given: Vec<(&str, &str)>| {
        let vars: Vec<(String, EnvVar)> = given
            .into_iter()
            .map(|(key, value)| (key.to_owned(), EnvVar::Value(value.to_owned())))
            .collect();
        let config = ContextConfig::from_env(
            &read("CONTEXT_TOKEN_BUDGET", &vars),
            &read("CONTEXT_RECENT_MESSAGES", &vars),
            &read("CONTEXT_MILD_PERCENT", &vars),
            &read("CONTEXT_STRONG_PERCENT", &vars),
        );
        let issues = check_environment(&Environment { vars }, &Ok(ApiType::OpenaiChat));
        let named = issues.iter().any(|issue| issue.variable.starts_with("CONTEXT_"));
        assert_eq!(config.is_ok(), !named);
        config.is_ok()
    };
    assert!(agreed(vec![]));
    assert!(agreed(vec![("CONTEXT_MILD_PERCENT", "1"), ("CONTEXT_STRONG_PERCENT", "2")]));
    assert!(agreed(vec![("CONTEXT_STRONG_PERCENT", "100"), ("CRON_TICK_SECONDS", "0")]));
    assert!(!agreed(vec![("CONTEXT_MILD_PERCENT", "85")]));
    assert!(!agreed(vec![("CONTEXT_STRONG_PERCENT", "101")]));
    assert!(!agreed(vec![("CONTEXT_TOKEN_BUDGET", "255")]));
    assert!(!agreed(vec![("CONTEXT_RECENT_MESSAGES", "0")]));
    assert!(!agreed(vec![("CONTEXT_RECENT_MESSAGES", "x")]));
}

#[test]
fn a_context_has_defaults() {
    let none = EnvVar::Missing;
    let config = ContextConfig::from_env(&none, &none, &none, &none).unwrap();
    assert_eq!(config.token_budget, 32_000);
    assert_eq!(config.recent_messages, 12);
    assert_eq!(config.summary_chunk_tokens, 10_666);
}

#[test]
fn estimates_add_up() {
    assert_eq!(estimate_text_tokens(""), 0);
    assert_eq!(estimate_text_tokens("中"), 1);
    assert_eq!(estimate_text_tokens("中中"), 2);
    assert_eq!(estimate_text_tokens("abcde"), 2);
    for (a, b) in [("中文字", "abc"), ("a", "b"), ("", "中"), ("中", "中")] {
        let both = estimate_text_tokens(&format!("{a}{b}"));
        assert!(both <= estimate_text_tokens(a) + estimate_text_tokens(b));
        assert!(both >= estimate_text_tokens(a).max(estimate_text_tokens(b)));
        assert_eq!(both, estimate_text_tokens(&format!("{b}{a}")));
    }
}

#[test]
fn the_oldest_messages_are_summed_up_as_documents() {
    let mut shown = Message::text(Role::User, "看");
    shown.image_urls = vec!["data:1".to_owned()];
    let call = ToolCall {
        id: "c".to_owned(),
        name: "exec".to_owned(),
        arguments: my_agent::json::Json::Null,
    };
    let asked = Message::assistant_tool_calls_with_thinking(vec![call], Some("想".to_owned()));
    let history = vec![shown, asked, Message::text(Role::User, "新")];
    assert_eq!(
        summary_source(&history, 2),
        "[{\"role\":\"user\",\"content\":\"看\",\"image_urls\":[\"data:1\"]},{\"role\":\"assistant\",\"content\":null,\"thinking\":\"想\",\"tool_calls\":[{\"id\":\"c\",\"name\":\"exec\",\"arguments\":null}]}]"
    );
    assert_eq!(summary_source(&history, 0), "[]");
}
