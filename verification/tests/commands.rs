use my_agent::config::{ConfigFile, ConfigStore, EnvVar};
use my_agent::cron::{CronManager, CronRunRecord, CronStore};
use my_agent::daemon::approval::ApprovalBroker;
use my_agent::daemon::chat::{RunRecord, RunStatus};
use my_agent::daemon::commands::{
    execute_cron_command, execute_mcp_command, format_mcp_status, list_skills, parse_skill_command,
    ran_now, skill_answer, CronAnswer, McpServerStatus, McpStatus, McpStep, SkillCommand,
    SkillInfo, CRON_USAGE, SKILL_USAGE,
};
use my_agent::daemon::delegation_tool::{
    answer, child_call_id, delegation_owner, list_root, spawned_run, wait_step, ChildRecord, Delegation,
    DelegationPlan, DelegationStep, DelegationTool, Heard, WaitStep,
};
use my_agent::daemon::dogfood::{dogfood_answer, dogfood_name, export_dogfood, strip_ansi_sequences};
use my_agent::daemon::handlers::{
    agent_event_update, request_id_label, route, send_result, Call, INVALID_PARAMS,
    METHOD_NOT_FOUND, PARAMS_ERROR,
};
use my_agent::daemon::models::{
    execute_models_command, model_loaded, models_command_done, models_list, ModelsStep,
};
use my_agent::daemon::protocol::{JsonRpcRequest, RequestId, ServerFrame};
use my_agent::daemon::runtime::{
    env_bool, env_u64, recover_queued, scheduler_settings, startup_profile,
};
use my_agent::daemon::sessions::{SessionInfo, SessionStatus};
use my_agent::daemon::slash::{
    chosen_session, execute_permissions_command, execute_slash, opened, permissions_get,
    permissions_set, resumable, resumed, run_text, status_text, ModeInfo, SlashAction,
    SlashInvocation, SlashParse, SlashResponse, SlashStep,
};
use my_agent::daemon::{ActiveKey, DaemonState};
use my_agent::json::Json;
use my_agent::loop_engine::AgentEvent;
use my_agent::provider::{ApiType, ProviderProfile};

fn object(fields: Vec<(&str, Json)>) -> Json {
    Json::Object(fields.into_iter().map(|(k, v)| (k.to_owned(), v)).collect())
}

fn text(s: &str) -> Json {
    Json::Str(s.to_owned())
}

fn words(line: &str) -> Vec<String> {
    line.split_whitespace().map(str::to_owned).collect()
}

fn profile(id: &str) -> ProviderProfile {
    ProviderProfile {
        id: id.to_owned(),
        name: id.to_owned(),
        api_type: ApiType::OpenaiChat,
        api_key: Some("k".to_owned()),
        base_url: "https://api.example.com".to_owned(),
        model: "m".to_owned(),
    }
}

fn config(ids: &[&str]) -> ConfigFile {
    ConfigFile {
        active_profile: ids.first().map(|id| (*id).to_owned()),
        profiles: ids.iter().map(|id| profile(id)).collect(),
        fallback_profile_ids: Vec::new(),
    }
}

fn cron_text(store: &mut CronStore, line: &str) -> String {
    match execute_cron_command(store, &words(line), 1_000, 1) {
        CronAnswer::Say(t) => t,
        other => panic!("{other:?}"),
    }
}

#[test]
fn slash_cron_commands_share_persistent_store_and_runner() {
    let mut store = CronStore::new();
    let added =
        cron_text(&mut store, "add smoke interval=60 --retries=1 --backoff=0 执行巡检");
    assert!(added.contains("已添加 smoke"));
    let listed = cron_text(&mut store, "list");
    assert!(listed.contains("smoke") && listed.contains("interval=60s"));
    assert!(cron_text(&mut store, "disable smoke").contains("已停用"));
    match execute_cron_command(&mut store, &words("run-now smoke"), 1_000, 2) {
        CronAnswer::RunNow(name) => assert_eq!(name, "smoke"),
        other => panic!("{other:?}"),
    }
    let ran = ran_now(Ok(CronRunRecord {
        started_at: 1,
        finished_at: 2,
        attempts: 1,
        success: true,
        result: "执行巡检".to_owned(),
    }));
    assert!(ran.contains("立即运行成功") && ran.contains("执行巡检"));
    assert!(cron_text(&mut store, "remove smoke").contains("--confirm"));
    assert!(cron_text(&mut store, "remove smoke --confirm").contains("已删除 smoke"));
    assert_eq!(cron_text(&mut store, "list"), "暂无 cron 任务。");
}

#[test]
fn commands_for_jobs_that_are_wrong_are_explained() {
    let mut store = CronStore::new();
    assert_eq!(cron_text(&mut store, "what"), format!("Cron 命令失败：{CRON_USAGE}"));
    assert!(cron_text(&mut store, "add a soon p").contains("schedule 必须是"));
    assert!(cron_text(&mut store, "add a interval=x p").contains("interval 必须是正整数秒"));
    assert!(cron_text(&mut store, "add a interval=5 --retries=x p").contains("--retries"));
    assert!(cron_text(&mut store, "add a interval=5 --backoff=x p").contains("--backoff"));
    assert!(cron_text(&mut store, "add a interval=5 --retries=1").contains("cron prompt 不能为空"));
    assert!(cron_text(&mut store, "add a cron=0,9,*,*,1-5 早安").contains("已添加 a"));
    assert!(cron_text(&mut store, "enable b").starts_with("Cron 命令失败："));
    assert!(ran_now(Err("坏".to_owned())).contains("坏"));
}

#[test]
fn slash_mcp_list_status_and_reload_share_daemon_manager() {
    let nothing = McpStatus { file_error: None, servers: Vec::new() };
    assert!(matches!(
        execute_mcp_command(true, &words("list")),
        McpStep::Status { include_errors: false }
    ));
    assert!(matches!(
        execute_mcp_command(true, &words("status")),
        McpStep::Status { include_errors: true }
    ));
    assert!(matches!(execute_mcp_command(true, &words("reload")), McpStep::Reload));
    assert!(format_mcp_status(&nothing, false).contains("未配置 MCP server"));
    assert!(matches!(execute_mcp_command(true, &words("x")), McpStep::Say(_)));
    assert!(matches!(execute_mcp_command(false, &words("list")), McpStep::Say(_)));
    let one = McpStatus {
        file_error: Some("坏".to_owned()),
        servers: vec![McpServerStatus {
            name: "fs".to_owned(),
            connected: false,
            tools: vec!["read".to_owned(), "write".to_owned()],
            error: Some("拒绝".to_owned()),
        }],
    };
    assert_eq!(
        format_mcp_status(&one, true),
        "配置错误：坏\nfs：不可用 · read、write · 拒绝"
    );
    assert!(!format_mcp_status(&one, false).contains("拒绝"));
}

#[test]
fn slash_skill_commands_share_the_daemon_owned_library() {
    match parse_skill_command(&words("install demo source.md --force")).unwrap() {
        SkillCommand::Install { path, force } => {
            assert_eq!(path, "demo source.md");
            assert!(force);
        }
        other => panic!("{other:?}"),
    }
    match parse_skill_command(&words("remove demo")).unwrap() {
        SkillCommand::Remove { name, confirmed } => {
            assert_eq!(name, "demo");
            assert!(!confirmed);
        }
        other => panic!("{other:?}"),
    }
    assert!(matches!(
        parse_skill_command(&words("remove demo --confirm")),
        Ok(SkillCommand::Remove { confirmed: true, .. })
    ));
    assert!(matches!(parse_skill_command(&words("list")), Ok(SkillCommand::List)));
    assert!(matches!(
        parse_skill_command(&words("update demo a b")),
        Ok(SkillCommand::Update { path, .. }) if path == "a b"
    ));
    assert_eq!(parse_skill_command(&Vec::new()).unwrap_err(), SKILL_USAGE);
    assert!(parse_skill_command(&words("install --force")).is_err());
    assert!(parse_skill_command(&words("remove a b c")).unwrap_err().contains("--confirm"));
    let listed = list_skills(&vec![SkillInfo {
        name: "demo".to_owned(),
        version: "1.0.0".to_owned(),
        description: "示例".to_owned(),
    }]);
    assert!(listed.contains("demo@1.0.0"));
    assert_eq!(skill_answer(true, Ok("好".to_owned())), "好");
    assert_eq!(skill_answer(true, Err("坏".to_owned())), "Skill 命令失败：坏");
    assert!(skill_answer(false, Ok("好".to_owned())).contains("未启用"));
}

fn mode(key: &str, label: &str, description: &str) -> ModeInfo {
    ModeInfo {
        key: key.to_owned(),
        label: label.to_owned(),
        description: description.to_owned(),
    }
}

#[test]
fn permissions_slash_and_rpc_share_the_same_mode() {
    let risk = mode("risk_approval", "帮我批准", "仅对危险操作询问");
    let full = || {
        mode("full_access", "完全访问权限", "不询问即可访问电脑上的文件和互联网")
    };
    let current = permissions_get(Some(&risk), &vec![full()]).unwrap();
    assert_eq!(current.str_at("mode"), Some("risk_approval"));
    assert_eq!(
        execute_permissions_command(&words("full"), Some(risk), Some(full())),
        "已切换权限模式：完全访问权限（不询问即可访问电脑上的文件和互联网）"
    );
    let after = permissions_get(Some(&full()), &Vec::new()).unwrap();
    assert_eq!(after.str_at("mode"), Some("full_access"));
    assert_eq!(after.str_at("label"), Some("完全访问权限"));
    assert_eq!(permissions_set(true, Some(&full())).unwrap().bool_at("changed"), Some(true));
    assert_eq!(permissions_set(true, None).unwrap_err().0, -32602);
    assert_eq!(permissions_set(false, None).unwrap_err().0, -32603);
    assert_eq!(permissions_get(None, &Vec::new()).unwrap_err().0, -32603);
    assert!(execute_permissions_command(&words("x"), Some(full()), None).contains("权限模式无效"));
    assert!(execute_permissions_command(&Vec::new(), Some(full()), None)
        .starts_with("当前权限模式：完全访问权限"));
}

fn command(action: SlashAction, args: &str) -> SlashStep {
    execute_slash(SlashParse::Command(SlashInvocation { action, args: words(args) }))
}

#[test]
fn slash_lines_become_steps() {
    assert!(matches!(command(SlashAction::Help, ""), SlashStep::Help));
    assert!(matches!(command(SlashAction::Status, ""), SlashStep::Status));
    assert!(matches!(command(SlashAction::Run, "a b"), SlashStep::Run(id) if id == "a b"));
    assert!(matches!(command(SlashAction::Sessions, ""), SlashStep::ListSessions));
    assert!(matches!(command(SlashAction::Resume, ""), SlashStep::ChooseSession));
    assert!(matches!(command(SlashAction::Resume, "2"), SlashStep::Resume(s) if s == "2"));
    assert!(matches!(command(SlashAction::New, ""), SlashStep::NewSession));
    assert!(matches!(command(SlashAction::Cron, "list"), SlashStep::Cron(a) if a.len() == 1));
    assert!(matches!(command(SlashAction::Dogfood, ""), SlashStep::Dogfood));
    assert!(matches!(
        command(SlashAction::Ping, ""),
        SlashStep::Respond(SlashResponse::Text { content }) if content == "pong"
    ));
    assert!(matches!(
        command(SlashAction::Exit, ""),
        SlashStep::Respond(SlashResponse::Exit)
    ));
    assert!(matches!(
        execute_slash(SlashParse::NotCommand),
        SlashStep::Respond(SlashResponse::Text { content }) if content == "输入不是 slash 命令"
    ));
}

fn session(id: &str, message_count: usize) -> SessionInfo {
    SessionInfo {
        id: id.to_owned(),
        path: format!("/{id}"),
        active: false,
        message_count,
        modified_at: None,
        preview: None,
        status: SessionStatus::Idle,
        active_requests: 0,
        updated_at: None,
    }
}

#[test]
fn sessions_are_chosen_by_number_or_name() {
    let kept = resumable(&vec![session("a", 1), session("b", 0), session("c", 2)]);
    let ids = kept.iter().map(|s| s.id.as_str()).collect::<Vec<&str>>();
    assert_eq!(ids, vec!["a", "c"]);
    assert_eq!(chosen_session("2", &kept).unwrap(), "c");
    assert_eq!(chosen_session("b", &kept).unwrap(), "b");
    assert_eq!(chosen_session("0", &kept).unwrap_err().1, "会话编号从 1 开始");
    assert_eq!(chosen_session("3", &kept).unwrap_err().1, "会话编号超出范围：3");
    assert!(matches!(
        resumed("a", 3, Json::Null),
        SlashResponse::SessionChanged { message, .. } if message == "已恢复会话 a，共 3 条消息。"
    ));
    assert!(matches!(
        opened("n", Json::Null),
        SlashResponse::SessionChanged { message, .. } if message == "已新建会话：n"
    ));
    assert_eq!(
        status_text("s", None, 2, 1, 0),
        "会话 s · 模型 未配置 · 历史 2 条 · 活动请求 1 个 · 待审批 0 个"
    );
}

fn finished_run() -> RunRecord {
    RunRecord {
        run_id: "r".to_owned(),
        turn_id: "t".to_owned(),
        session_id: "s".to_owned(),
        request_id: RequestId::Number(1),
        status: RunStatus::Completed,
        last_seq: 4,
        content: Some("答".to_owned()),
        error_code: None,
        error_message: None,
    }
}

#[test]
fn a_run_is_described() {
    let described = run_text("r", Ok(Some(finished_run()))).unwrap();
    assert!(described.starts_with("run_id=r · session_id=s · status=completed · seq=4"));
    assert_eq!(run_text("r", Ok(None)).unwrap_err().1, "找不到 run: r");
    assert_eq!(run_text("r", Err("坏".to_owned())).unwrap_err().0, -32603);
}

#[test]
fn models_are_listed_and_changed() {
    let store = ConfigStore::new("/c.json");
    let listed = models_list(&Ok(config(&["a", "b"])), None, &store).unwrap();
    assert_eq!(listed.str_at("active_id"), Some("a"));
    assert_eq!(
        models_list(&Err("坏".to_owned()), None, &store).unwrap_err().1,
        "读取模型配置失败：坏"
    );
    let known = Ok(config(&["a", "b"]));
    let say = |args: &str| match execute_models_command(&words(args), &known, None, &store) {
        ModelsStep::Say(t) => t,
        ModelsStep::Use(id) => format!("use {id}"),
    };
    assert!(say("").starts_with("当前模型：a\n* 1. a · "));
    assert_eq!(say("2"), "use b");
    assert_eq!(say("b"), "use b");
    assert_eq!(say("3"), "模型编号超出范围：3");
    let empty = Ok(ConfigFile::empty());
    match execute_models_command(&Vec::new(), &empty, None, &store) {
        ModelsStep::Say(t) => assert!(t.starts_with("暂无模型配置。") && t.ends_with("/c.json")),
        other => panic!("{other:?}"),
    }
    assert_eq!(models_command_done(Ok(&profile("a"))), "已切换模型：a · m");
    assert_eq!(models_command_done(Err("坏")), "坏");
    assert_eq!(model_loaded(&profile("a"), Ok(())).unwrap().str_at("active_id"), Some("a"));
    assert_eq!(
        model_loaded(&profile("a"), Err("坏".to_owned())).unwrap_err().1,
        "加载模型失败：坏"
    );
}

#[test]
fn models_are_not_changed_while_work_runs() {
    let mut state = DaemonState::new("s", ApprovalBroker::new(), "/log");
    let change = state.models_use(true, Ok(config(&["a", "b"])), "b").unwrap();
    assert_eq!(change.profile.id, "b");
    assert_eq!(change.config.active_profile.as_deref(), Some("b"));
    assert!(state.models_use(true, Ok(config(&["a"])), "z").is_err());
    assert_eq!(state.models_use(false, Ok(config(&["a"])), "a").unwrap_err().0, -32603);
    let saved = state.models_save(true, Ok(config(&["a"])), profile("n"), true).unwrap();
    assert_eq!(saved.config.profiles.len(), 2);
    let key = ActiveKey { session_id: "s".to_owned(), request_id: RequestId::Number(1) };
    state.active.begin(key, &finished_run()).unwrap();
    assert_eq!(state.models_use(true, Ok(config(&["a"])), "a").unwrap_err().0, -32001);
    assert_eq!(
        state.models_save(true, Ok(config(&["a"])), profile("n"), true).unwrap_err().0,
        -32001
    );
}

#[test]
fn work_is_handed_to_others() {
    let spawn = DelegationTool::new("spawn_subagent");
    match spawn.plan(&object(vec![("task", text("查"))])).unwrap() {
        DelegationPlan::Spawn { tasks, tools, wait } => {
            assert_eq!(tasks, vec!["查"]);
            assert!(tools.is_none());
            assert!(!wait);
        }
        other => panic!("{other:?}"),
    }
    assert!(spawn.plan(&object(vec![("task", text(" "))])).is_err());
    let many = object(vec![("tasks", Json::Array(vec![text("一"), text("二")]))]);
    assert!(spawn.plan(&many).is_err());
    match DelegationTool::new("sub_agent").plan(&many).unwrap() {
        DelegationPlan::Spawn { tasks, wait, .. } => {
            assert_eq!(tasks.len(), 2);
            assert!(wait);
        }
        other => panic!("{other:?}"),
    }
    let waiting = DelegationTool::new("wait_subagents");
    match waiting.plan(&object(vec![("child_run_ids", Json::Array(vec![text("c")]))])).unwrap() {
        DelegationPlan::Wait { child_run_ids, timeout_ms, after_seq } => {
            assert_eq!(child_run_ids, vec!["c"]);
            assert_eq!(timeout_ms, 30_000);
            assert!(after_seq.is_none());
        }
        other => panic!("{other:?}"),
    }
    assert_eq!(waiting.plan(&Json::Null).unwrap_err(), "需要 child_run_ids 数组");
    let cancel = DelegationTool::new("cancel_subagent");
    assert_eq!(cancel.plan(&Json::Null).unwrap_err(), "需要 child_run_id");
    assert!(matches!(
        DelegationTool::new("list_subagents").plan(&Json::Null),
        Ok(DelegationPlan::List)
    ));
    assert!(format!("{:?}", cancel.parameters()).contains("child_run_id"));
    assert!(spawn.description().contains("异步"));
    assert_eq!(child_call_id("call", 2), "call:2");
    assert_eq!(answer("children", Vec::new()), "{\"children\":[]}");
}

#[test]
fn the_end_of_handed_work_is_waited_for() {
    let record = |terminal: bool| ChildRecord {
        terminal,
        completed: true,
        status: "completed".to_owned(),
        content: Some("果".to_owned()),
        error_message: None,
    };
    assert!(matches!(wait_step("t", "c", false, Some(&record(false))), WaitStep::Pause));
    match wait_step("t", "c", false, Some(&record(true))) {
        WaitStep::Finished(j) => {
            assert_eq!(j.bool_at("success"), Some(true));
            assert_eq!(j.str_at("result"), Some("果"));
        }
        other => panic!("{other:?}"),
    }
    assert!(matches!(
        wait_step("t", "c", false, None),
        WaitStep::Abort(e) if e == "子 Agent 记录消失"
    ));
    assert!(matches!(wait_step("t", "c", true, Some(&record(true))), WaitStep::Abort(_)));
}

#[test]
fn exports_full_conversation_and_only_current_session_chain_logs() {
    let conversation = "{\"role\":\"user\",\"content\":\"检查项目\"}\n\
        {\"role\":\"assistant\",\"tool_calls\":[{\"name\":\"exec\",\"arguments\":{\"command\":\"pwd\"}}]}\n\
        {\"role\":\"tool\",\"content\":\"/workspace\",\"name\":\"exec\"}\n\
        {\"role\":\"assistant\",\"content\":\"完成\"}\n";
    let log = "\x1b[32m INFO\x1b[0m agent_turn{\x1b[3msession_id\x1b[0m\x1b[2m=\x1b[0msession-42.jsonl request_id=Number(7)}: 开始 ReAct 轮次\n\
        INFO agent_turn{session_id=other.jsonl request_id=Number(8)}: 其他会话\n\
        INFO session_id=session-42.jsonl request_id=Number(7): chat 请求结束\n";
    let content = export_dogfood(
        "session-42.jsonl",
        "/tmp/session-42.jsonl",
        "/tmp/daemon.log",
        1,
        conversation.as_bytes(),
        log.as_bytes(),
    );
    assert_eq!(dogfood_name(Some("session-42")), "dogfood-session-42.log");
    assert!(content.contains("conversation_messages=4"));
    assert!(content.contains("chain_log_lines=2"));
    assert!(content.contains(conversation));
    assert!(content.contains("request_id=Number(7)"));
    assert!(!content.contains("其他会话"));
    assert!(!content.contains('\x1b'));
    assert_eq!(dogfood_name(None), "dogfood-session.log");
    assert_eq!(strip_ansi_sequences("\x1b[1;31m红\x1b[0m"), "红");
}

#[test]
fn methods_are_routed() {
    assert!(matches!(route("session.list", &Json::Null), Ok(Call::SessionList)));
    assert!(matches!(route("daemon.stop", &Json::Null), Ok(Call::DaemonStop)));
    assert!(matches!(
        route("session.resume", &object(vec![("session_id", text("s"))])),
        Ok(Call::SessionResume { session_id }) if session_id == "s"
    ));
    assert!(matches!(
        route("session.load_page", &object(vec![("session_id", text("s"))])),
        Ok(Call::SessionLoadPage { offset: 0, limit: 80, .. })
    ));
    let (code, message) = route("session.resume", &Json::Null).unwrap_err();
    assert_eq!(code, INVALID_PARAMS);
    assert_eq!(message, PARAMS_ERROR);
    let (code, message) = route("no.such", &Json::Null).unwrap_err();
    assert_eq!(code, METHOD_NOT_FOUND);
    assert_eq!(message, "未知 RPC 方法: no.such");
    let state = DaemonState::new("s", ApprovalBroker::new(), "/log");
    let request = JsonRpcRequest::new(RequestId::Number(5), "no.such", Json::Null);
    let refused = state.handle_request(&request).unwrap_err();
    assert_eq!(refused.id, RequestId::Number(5));
    assert_eq!(refused.error.unwrap().code, METHOD_NOT_FOUND);
    let reply = send_result(RequestId::Number(6), Ok(Json::Bool(true)));
    assert_eq!(reply.result.unwrap().as_bool(), Some(true));
    assert!(send_result(RequestId::Number(6), Err((1, "x".to_owned()))).error.is_some());
    assert_eq!(request_id_label(&RequestId::Number(7)), "7");
    assert_eq!(request_id_label(&RequestId::String("a".to_owned())), "a");
}

#[test]
fn events_of_a_turn_become_frames() {
    let update = agent_event_update(AgentEvent::TextDelta("字".to_owned()));
    match update.to_frame(RequestId::Number(2)) {
        ServerFrame::Event(event) => {
            assert_eq!(event.request_id, RequestId::Number(2));
            assert_eq!(event.data.str_at("delta"), Some("字"));
        }
        other => panic!("{other:?}"),
    }
}

#[test]
fn a_daemon_is_set_from_its_environment() {
    let value = |s: &str| EnvVar::Value(s.to_owned());
    let missing = EnvVar::Missing;
    assert_eq!(env_u64(&value("7"), 1), 7);
    assert_eq!(env_u64(&value("x"), 1), 1);
    assert_eq!(env_u64(&missing, 1), 1);
    assert!(env_bool(&value(" YES "), false));
    assert!(!env_bool(&value("perhaps"), true));
    assert!(env_bool(&missing, true));
    let set = scheduler_settings(&value("on"), &missing, &value("0"), &missing);
    assert_eq!((set.tick, set.stagger, set.heartbeat), (1, 2, Some(300)));
    assert!(scheduler_settings(&missing, &missing, &missing, &missing).heartbeat.is_none());
    assert_eq!(startup_profile(None, Some(profile("e"))).unwrap().id, "e");
    assert_eq!(startup_profile(Some(profile("a")), Some(profile("e"))).unwrap().id, "a");
    assert!(startup_profile(None, None).is_err());
    let request =
        recover_queued("r", RequestId::Number(3), "s", Some("继续".to_owned())).unwrap();
    assert_eq!(request.method, "chat.send");
    assert_eq!(request.params.str_at("message"), Some("继续"));
    assert_eq!(
        recover_queued("r", RequestId::Number(3), "s", None).unwrap_err(),
        "queued run r 缺少队列项"
    );
}

#[test]
fn jobs_need_a_scheduler() {
    let mut state = DaemonState::new("s", ApprovalBroker::new(), "/log");
    match state.execute_cron_command(&words("list"), 1_000, 1) {
        CronAnswer::Say(t) => assert_eq!(t, "当前 daemon 未启用 cron 管理器。"),
        other => panic!("{other:?}"),
    }
    state.cron = Some(CronManager::new(CronStore::new(), 1_000, 0, None));
    match state.execute_cron_command(&words("add a interval=5 巡检"), 1_000, 1) {
        CronAnswer::Say(t) => assert!(t.contains("已添加 a")),
        other => panic!("{other:?}"),
    }
    assert!(state.has_persistent_background_work());
}

#[test]
fn exports_and_handed_work_are_answered() {
    assert_eq!(dogfood_answer(Ok("/x".to_owned())).unwrap(), "dogfood 已生成：/x");
    assert_eq!(
        dogfood_answer(Err("坏".to_owned())).unwrap_err(),
        (-32603, "生成 dogfood 日志失败：坏".to_owned())
    );
    let owner = Some(("r".to_owned(), "c".to_owned()));
    assert_eq!(delegation_owner(true, owner.clone()), Ok(("r".to_owned(), "c".to_owned())));
    assert_eq!(delegation_owner(false, owner).unwrap_err(), "委派 daemon 尚未就绪");
    assert_eq!(delegation_owner(true, None).unwrap_err(), "委派工具只能在持久 run 中调用");
    assert_eq!(spawned_run(&object(vec![("child_run_id", text("c"))])).unwrap(), "c");
    assert_eq!(spawned_run(&Json::Null).unwrap_err(), "缺少 child_run_id");
}

#[test]
fn parameters_may_come_as_a_list() {
    match route("session.resume", &Json::Array(vec![text("s")])) {
        Ok(Call::SessionResume { session_id }) => assert_eq!(session_id, "s"),
        other => panic!("{other:?}"),
    }
    assert!(route("session.resume", &Json::Array(Vec::new())).is_err());
    assert!(route("session.resume", &Json::Array(vec![text("s"), text("t")])).is_err());
}

fn finished(status: &str, content: &str) -> ChildRecord {
    ChildRecord {
        terminal: true,
        completed: status == "completed",
        status: status.to_owned(),
        content: Some(content.to_owned()),
        error_message: None,
    }
}

fn spawned(id: &str) -> Result<Json, String> {
    Ok(object(vec![("child_run_id", text(id))]))
}

#[test]
fn handed_work_goes_out_and_comes_back_in_order() {
    let tasks = vec!["一".to_owned(), "二".to_owned()];
    let mut work = Delegation::new("c".to_owned(), tasks, Some(vec!["exec".to_owned()]), true);
    for (index, task) in ["一", "二"].into_iter().enumerate() {
        match work.next() {
            DelegationStep::Spawn { call_id, task: sent, tools } => {
                assert_eq!(call_id, format!("c:{index}"));
                assert_eq!(sent, task);
                assert_eq!(tools, Some(vec!["exec".to_owned()]));
            }
            other => panic!("{other:?}"),
        }
        assert!(matches!(work.on_spawned(spawned(&format!("run-{index}"))), Heard::Next));
    }
    match work.next() {
        DelegationStep::Look { child_run_id } => assert_eq!(child_run_id, "run-0"),
        other => panic!("{other:?}"),
    }
    let mut running = finished("running", "");
    running.terminal = false;
    assert!(matches!(work.on_look(false, &Ok(Some(running))), Heard::Pause));
    assert!(matches!(work.on_look(false, &Ok(Some(finished("completed", "甲")))), Heard::Next));
    match work.next() {
        DelegationStep::Look { child_run_id } => assert_eq!(child_run_id, "run-1"),
        other => panic!("{other:?}"),
    }
    assert!(matches!(work.on_look(false, &Ok(Some(finished("failed", "乙")))), Heard::Next));
    match work.next() {
        DelegationStep::Answer(said) => assert_eq!(
            said,
            "{\"results\":[{\"task\":\"一\",\"child_run_id\":\"run-0\",\"success\":true,\"result\":\"甲\",\"status\":\"completed\",\"error\":null},{\"task\":\"二\",\"child_run_id\":\"run-1\",\"success\":false,\"result\":\"乙\",\"status\":\"failed\",\"error\":null}]}"
        ),
        other => panic!("{other:?}"),
    }
}

#[test]
fn handed_work_that_goes_wrong_ends() {
    let said = |heard: Heard| match heard {
        Heard::Fail(error) => error,
        other => panic!("{other:?}"),
    };
    let mut work = Delegation::new("c".to_owned(), vec!["一".to_owned()], None, true);
    assert_eq!(said(work.on_spawned(Err("满".to_owned()))), "满");
    work.on_spawned(spawned("r"));
    assert_eq!(said(work.on_look(true, &Ok(None))), "父 run 已取消；委派子树由 daemon 收敛");
    assert_eq!(said(work.on_look(false, &Ok(None))), "子 Agent 记录消失");
    assert_eq!(said(work.on_look(false, &Err("坏".to_owned()))), "坏");
    let mut nameless = Delegation::new("c".to_owned(), vec!["一".to_owned()], None, true);
    nameless.on_spawned(Ok(Json::Null));
    match nameless.next() {
        DelegationStep::Fail(error) => assert_eq!(error, "缺少 child_run_id"),
        other => panic!("{other:?}"),
    }
    let mut quick = Delegation::new("c".to_owned(), vec!["一".to_owned()], None, false);
    quick.on_spawned(spawned("r"));
    match quick.next() {
        DelegationStep::Answer(said) => {
            assert_eq!(said, "{\"children\":[{\"child_run_id\":\"r\"}]}")
        }
        other => panic!("{other:?}"),
    }
}

#[test]
fn the_root_of_a_run_lists_its_work() {
    assert_eq!(list_root(Some("root"), "parent"), "root");
    assert_eq!(list_root(None, "parent"), "parent");
}

#[test]
fn a_state_may_be_the_key_of_nothing() {
    let settle = |status: Json| {
        route(
            "run.reconcile",
            &object(vec![
                ("session_id", text("s")),
                ("run_id", text("r")),
                ("expected_last_seq", Json::Unsigned(1)),
                ("status", status),
                ("evidence", text("e")),
            ]),
        )
    };
    assert!(matches!(settle(text("completed")), Ok(Call::RunReconcile { .. })));
    assert!(matches!(
        settle(object(vec![("completed", Json::Null)])),
        Ok(Call::RunReconcile { .. })
    ));
    assert!(settle(object(vec![("completed", Json::Bool(true))])).is_err());
    assert!(settle(object(vec![])).is_err());
}
