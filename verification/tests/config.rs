use my_agent::config::{
    check_environment, default_config_path, load_persisted_environment, normalize_profile_id,
    require_non_empty, says_true, validate_base_url, validate_bool, validate_environment,
    validate_usize, ConfigFile, ConfigIssue, ConfigStore, EnvVar, Environment, ProfileSummary,
};
use my_agent::provider::{ApiType, ProviderProfile};

fn profile(id: &str, model: &str, key: Option<&str>) -> ProviderProfile {
    ProviderProfile {
        id: id.to_owned(),
        name: id.to_owned(),
        api_type: ApiType::OpenaiChat,
        api_key: key.map(str::to_owned),
        base_url: "https://api.example.com".to_owned(),
        model: model.to_owned(),
    }
}

fn value(s: &str) -> EnvVar {
    EnvVar::Value(s.to_owned())
}

fn environment(vars: Vec<(&str, &str)>) -> Environment {
    Environment { vars: vars.into_iter().map(|(name, v)| (name.to_owned(), value(v))).collect() }
}

fn complete() -> Vec<(&'static str, &'static str)> {
    vec![
        ("OPENAI_API_KEY", "k"),
        ("OPENAI_BASE_URL", "https://api.example.com"),
        ("MODEL_NAME", "m"),
    ]
}

#[test]
fn config_store_round_trips_and_preserves_omitted_api_key() {
    let store = ConfigStore::new("my-agent-config-test.json");
    let saved = store
        .upsert(ConfigFile::empty(), profile("deepseek", "deepseek-chat", Some("secret")), true)
        .unwrap();
    assert_eq!(saved.active_profile.as_deref(), Some("deepseek"));
    let summary = ProfileSummary::from_profile(&saved.profiles[0]);
    assert!(summary.has_api_key);

    let saved = store.upsert(saved, profile("deepseek", "deepseek-reasoner", None), true).unwrap();
    assert_eq!(saved.profiles[0].api_key.as_deref(), Some("secret"));
    assert_eq!(store.active_profile(&saved).unwrap().model, "deepseek-reasoner");
    let saved = store
        .upsert(saved, profile("other", "other-model", Some("other-secret")), false)
        .unwrap();
    let saved = store.upsert(saved, profile("deepseek", "deepseek-v4", None), true).unwrap();
    assert_eq!(saved.active_profile.as_deref(), Some("deepseek"));
    assert_eq!(saved.profiles.len(), 2);
}

#[test]
fn profile_validation_requires_key_for_remote_provider() {
    let error = profile("remote", "model", None).validate().unwrap_err();
    assert!(error.contains("API key"));
    let mut ollama = profile("local", "qwen3", None);
    ollama.api_type = ApiType::Ollama;
    ollama.base_url = "http://127.0.0.1:11434".to_owned();
    assert!(ollama.validate().is_ok());
}

#[test]
fn a_profile_is_made_active_by_its_name() {
    let store = ConfigStore::new("c.json");
    assert_eq!(store.path(), "c.json");
    let file = store.upsert(ConfigFile::empty(), profile("a", "m", Some("k")), false).unwrap();
    assert_eq!(file.active_profile.as_deref(), Some("a"));
    let file = store.upsert(file, profile("b", "n", Some("k")), false).unwrap();
    assert_eq!(file.active_profile.as_deref(), Some("a"));
    assert_eq!(store.activate(file.clone_for_test(), "z").unwrap_err(), "不存在模型配置：z");
    let (used, file) = store.activate(file, "b").unwrap();
    assert_eq!(used.model, "n");
    assert_eq!(file.active_profile.as_deref(), Some("b"));
    assert!(store.upsert(file, profile("c", "m", None), true).is_err());
}

trait CloneForTest {
    fn clone_for_test(&self) -> ConfigFile;
}

impl CloneForTest for ConfigFile {
    fn clone_for_test(&self) -> ConfigFile {
        ConfigFile {
            active_profile: self.active_profile.clone(),
            profiles: self.profiles.clone(),
            fallback_profile_ids: self.fallback_profile_ids.clone(),
        }
    }
}

#[test]
fn names_of_profiles_are_plain() {
    assert_eq!(normalize_profile_id(" My Model!", "", ""), "my-model");
    assert_eq!(normalize_profile_id("", "名字 A", "m"), "a");
    assert_eq!(normalize_profile_id("", "", "GPT-4.1"), "gpt-4-1");
    assert_eq!(normalize_profile_id("", "", "模型"), "model");
}

#[test]
fn a_file_with_a_missing_profile_is_not_kept() {
    let file = ConfigFile {
        active_profile: Some("gone".to_owned()),
        profiles: vec![profile("a", "m", Some("k"))],
        fallback_profile_ids: Vec::new(),
    };
    assert!(file.check_save().is_err());
}

#[test]
fn a_complete_environment_has_no_issues() {
    let env = environment(complete());
    assert!(check_environment(&env, &Ok(ApiType::OpenaiChat)).is_empty());
    assert!(validate_environment(&env, &Ok(ApiType::OpenaiChat), "/c.json").is_ok());
}

#[test]
fn an_empty_environment_is_explained() {
    let env = environment(vec![]);
    let issues = check_environment(&env, &Ok(ApiType::OpenaiChat));
    let names = issues.iter().map(|i| i.variable).collect::<Vec<&str>>();
    assert_eq!(names, vec!["OPENAI_API_KEY", "OPENAI_BASE_URL", "MODEL_NAME"]);
    let message = validate_environment(&env, &Ok(ApiType::OpenaiChat), "/c.json").unwrap_err();
    assert!(message.starts_with("配置校验失败：OPENAI_API_KEY：未设置；"));
    assert!(message.contains("全局配置文件 /c.json"));
    let local = check_environment(&environment(vec![("MODEL_NAME", "m")]), &Ok(ApiType::Ollama));
    assert!(local.is_empty());
    let wrong = check_environment(&environment(complete()), &Err("坏".to_owned()));
    assert_eq!(wrong[0].variable, "API_TYPE");
}

#[test]
fn thresholds_have_an_order() {
    let mut vars = complete();
    vars.push(("CONTEXT_MILD_PERCENT", "90"));
    vars.push(("CONTEXT_STRONG_PERCENT", "80"));
    let issues = check_environment(&environment(vars), &Ok(ApiType::OpenaiChat));
    assert_eq!(issues.len(), 1);
    assert_eq!(issues[0].message, "必须满足温和阈值小于强力阈值");
}

#[test]
fn settings_are_tested_one_by_one() {
    let mut issues: Vec<ConfigIssue> = Vec::new();
    require_non_empty("A", &value(" "), &mut issues);
    require_non_empty("B", &EnvVar::NotUnicode("x".to_owned()), &mut issues);
    require_non_empty("C", &value("ok"), &mut issues);
    validate_usize("D", &value("9"), 10, 20, &mut issues);
    validate_usize("E", &value("15"), 10, 20, &mut issues);
    validate_bool("F", &value("perhaps"), &mut issues);
    validate_bool("G", &value("Yes"), &mut issues);
    validate_base_url(Some(ApiType::OpenaiChat), &value("ftp://x"), &mut issues);
    validate_base_url(Some(ApiType::OpenaiChat), &value("no url"), &mut issues);
    validate_base_url(Some(ApiType::OpenaiChat), &value("https://x"), &mut issues);
    let names = issues.iter().map(|i| i.variable).collect::<Vec<&str>>();
    assert_eq!(names, vec!["A", "B", "D", "F", "OPENAI_BASE_URL", "OPENAI_BASE_URL"]);
    assert_eq!(issues[0].message, "不能为空");
    assert_eq!(issues[1].message, "无法读取：x");
    assert!(says_true("true"));
    assert!(!says_true("off"));
}

#[test]
fn the_file_is_found_by_settings() {
    assert_eq!(default_config_path(Some("/x"), Some("/d"), Some("/h")), "/x");
    assert_eq!(default_config_path(None, Some("/d"), Some("/h")), "/d/my-agent/config.json");
    assert_eq!(
        default_config_path(None, None, Some("/h/")),
        "/h/.config/my-agent/config.json"
    );
    assert_eq!(default_config_path(None, None, None), ".my-agent/config.json");
}

#[test]
fn kept_settings_do_not_replace_those_of_the_environment() {
    let p = profile("a", "m", Some("k"));
    let added = load_persisted_environment(Some(&p), &environment(vec![("MODEL_NAME", "mine")]));
    let names = added.iter().map(|(name, _)| name.as_str()).collect::<Vec<&str>>();
    assert_eq!(names, vec!["API_TYPE", "OPENAI_BASE_URL", "OPENAI_API_KEY"]);
    assert!(load_persisted_environment(None, &environment(vec![])).is_empty());
}
