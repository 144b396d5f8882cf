use my_agent::config::{ConfigFile, ConfigIssue};
use my_agent::entry::report::{
    config_check, config_list, log_line_matches_request, may_start, no_log, recent_lines, status_report,
    stop_command, DaemonStatus, StopAction, STORED_SESSIONS,
};
use my_agent::provider::{ApiType, ProviderProfile};

#[test]
fn filters_numeric_and_string_request_ids_without_partial_matches() {
    let numeric = "agent_turn{request_id=Number(2)}: 开始 ReAct 轮次";
    let string = "agent_turn{request_id=String(\"task-2\")}: 开始 ReAct 轮次";

    assert!(log_line_matches_request(numeric, "2"));
    assert!(log_line_matches_request(numeric, "Number(2)"));
    assert!(log_line_matches_request(string, "task-2"));
    assert!(!log_line_matches_request(numeric, "1"));
}

#[test]
fn the_last_lines_of_a_session_are_printed_in_order() {
    let log = "a session_id=s1 request_id=Number(1)\nb session_id=s2\nc session_id=s1 request_id=Number(2)\nd session_id=s1 request_id=Number(1)\n";
    let two = recent_lines(log, 2, Some("s1"), None).unwrap();
    assert_eq!(two.len(), 2);
    assert!(two[0].starts_with('c'));
    assert!(two[1].starts_with('d'));
    let of_request = recent_lines(log, 10, Some("s1"), Some("1")).unwrap();
    assert_eq!(of_request.len(), 2);
    assert!(of_request[0].starts_with('a'));
    assert_eq!(recent_lines(log, 10, None, None).unwrap().len(), 4);
    assert_eq!(recent_lines(log, 0, None, None).unwrap_err(), "--lines 必须大于 0");
}

fn profile(id: &str, name: &str, key: Option<&str>) -> ProviderProfile {
    ProviderProfile {
        id: id.to_owned(),
        name: name.to_owned(),
        api_type: ApiType::OpenaiChat,
        api_key: key.map(str::to_owned),
        base_url: "https://api.example.com".to_owned(),
        model: "m".to_owned(),
    }
}

#[test]
fn profiles_are_listed_without_their_keys() {
    let file = ConfigFile {
        active_profile: Some("b".to_owned()),
        profiles: vec![profile("a", "甲", Some("hidden")), profile("b", " ", None)],
        fallback_profile_ids: Vec::new(),
    };
    assert_eq!(
        config_list(&file, "/c.json"),
        vec![
            "全局配置文件：/c.json",
            "  甲 · openai-chat · m · key=true",
            "* b · openai-chat · m · key=false",
        ]
    );
    assert_eq!(
        config_list(&ConfigFile::empty(), "/c.json"),
        vec!["暂无已保存模型配置。\n配置文件：/c.json"]
    );
}

#[test]
fn the_check_says_what_is_wrong() {
    let (lines, failure) = config_check(&Vec::new(), "/c.json");
    assert_eq!(
        lines,
        vec!["配置检查通过。API 密钥已设置（值不会显示）。\n全局配置文件：/c.json"]
    );
    assert_eq!(failure, None);
    let issues = vec![ConfigIssue { variable: "API_KEY", message: "未设置".to_owned() }];
    let (lines, failure) = config_check(&issues, "/c.json");
    assert_eq!(lines, vec!["配置检查发现 1 个问题：", "- API_KEY：未设置"]);
    assert!(failure.unwrap().ends_with("配置文件：/c.json"));
}

#[test]
fn the_daemon_is_reported_as_it_stands() {
    assert_eq!(
        status_report(DaemonStatus::Ready { pid: 7 }, "/s", "/l", "/w"),
        "ready · pid=7 · socket=/s · log=/l · sessions=/w"
    );
    assert_eq!(
        status_report(DaemonStatus::Starting { pid: Some(7) }, "/s", "/l", "/w"),
        "starting · pid=Some(7) · log=/l · sessions=/w"
    );
    assert_eq!(
        status_report(DaemonStatus::Stale { pid: None }, "/s", "/l", "/w"),
        "stale · pid=None · log=/l · 可再次运行 `my-agent` 自动清理并重启"
    );
    assert_eq!(status_report(DaemonStatus::Stopped, "/s", "/l", "/w"), "stopped · log=/l");
}

#[test]
fn stopping_depends_on_how_the_daemon_stands() {
    assert_eq!(stop_command(DaemonStatus::Ready { pid: 1 }).0, StopAction::Request);
    assert_eq!(stop_command(DaemonStatus::Stale { pid: None }).0, StopAction::CleanUp);
    assert_eq!(
        stop_command(DaemonStatus::Starting { pid: Some(3) }),
        (StopAction::Nothing, "daemon 正在启动（pid=Some(3)），请稍后重试 stop。".to_owned())
    );
    assert_eq!(stop_command(DaemonStatus::Stopped).1, "daemon 未运行。");
}

#[test]
fn a_workspace_has_one_daemon() {
    assert_eq!(
        may_start(DaemonStatus::Ready { pid: 1 }).unwrap_err(),
        "该工作区的 daemon 已在运行"
    );
    assert!(may_start(DaemonStatus::Stopped).is_ok());
    assert!(may_start(DaemonStatus::Stale { pid: None }).is_ok());
    assert_eq!(no_log("/l"), "暂无 daemon 日志：/l");
    assert!(STORED_SESSIONS.starts_with("daemon 未运行"));
}

#[test]
fn a_number_does_not_match_a_longer_one() {
    let line = "agent_turn{request_id=23}: 开始";
    assert!(!log_line_matches_request(line, "2"));
    assert!(log_line_matches_request(line, "23"));
    let log = "a session_id=s12\nb session_id=s1\n";
    let found = recent_lines(log, 10, Some("s1"), None).unwrap();
    assert_eq!(found, vec!["b session_id=s1".to_owned()]);
}
