//! The model profiles that are kept, and the settings of the environment.
use vstd::prelude::*;

use crate::json;
use crate::provider;
use crate::provider::{ApiType, ProfileView, ProviderProfile};
use crate::text;

verus! {

/// A setting as the environment gives it; one that is no Unicode with the message
/// that says so.
#[derive(Debug)]
pub enum EnvVar {
    Missing,
    Value(String),
    NotUnicode(String),
}

/// A setting that is missing or wrong.
#[derive(Clone, Debug, PartialEq, Eq)]
pub struct ConfigIssue {
    pub variable: &'static str,
    pub message: String,
}

/// What an issue says.
pub struct IssueView {
    pub variable: Seq<char>,
    pub message: Seq<char>,
}

impl View for ConfigIssue {
    type V = IssueView;

    open spec fn view(&self) -> IssueView {
        IssueView { variable: self.variable@, message: self.message@ }
    }
}

/// What a list of issues says.
pub open spec fn issue_views(v: Seq<ConfigIssue>) -> Seq<IssueView> {
    Seq::new(v.len(), |i: int| v[i]@)
}

/// One issue.
pub open spec fn issue(variable: Seq<char>, message: Seq<char>) -> Seq<IssueView> {
    seq![IssueView { variable, message }]
}

fn push_issue(issues: &mut Vec<ConfigIssue>, variable: &'static str, message: String)
    ensures
        issue_views(final(issues)@) == issue_views(old(issues)@) + issue(variable@, message@),
{
    let ghost before = issues@;
    issues.push(ConfigIssue { variable, message });
    assert(issue_views(issues@) =~= issue_views(before) + issue(variable@, message@));
}

proof fn lemma_no_issue(issues: Seq<ConfigIssue>)
    ensures
        issue_views(issues) + Seq::<IssueView>::empty() == issue_views(issues),
{
    assert(issue_views(issues) + Seq::<IssueView>::empty() =~= issue_views(issues));
}

/// The message for a setting that cannot be read.
pub open spec fn unreadable(error: Seq<char>) -> Seq<char> {
    "无法读取："@ + error
}

fn unreadable_text(error: &str) -> (r: String)
    ensures
        r@ == unreadable(error@),
{
    let mut r = "无法读取：".to_owned();
    r.append(error);
    r
}

/// What is wrong with a setting that must say something.
pub open spec fn required_issues(variable: Seq<char>, value: EnvVar) -> Seq<IssueView> {
    match value {
        EnvVar::Value(s) => if text::blank(s@) {
            issue(variable, "不能为空"@)
        } else {
            Seq::empty()
        },
        EnvVar::Missing => issue(variable, "未设置"@),
        EnvVar::NotUnicode(e) => issue(variable, unreadable(e@)),
    }
}

/// Notes a setting that must say something and does not.
pub fn require_non_empty(variable: &'static str, value: &EnvVar, issues: &mut Vec<ConfigIssue>)
    ensures
        issue_views(final(issues)@) == issue_views(old(issues)@) + required_issues(
            variable@,
            *value,
        ),
{
    proof {
        lemma_no_issue(issues@);
    }
    match value {
        EnvVar::Value(s) => {
            if text::is_blank(s.as_str()) {
                push_issue(issues, variable, "不能为空".to_owned());
            }
        },
        EnvVar::Missing => push_issue(issues, variable, "未设置".to_owned()),
        EnvVar::NotUnicode(e) => push_issue(issues, variable, unreadable_text(e.as_str())),
    }
}

/// What is wrong with a setting that must be a number in a range, where it is set.
pub open spec fn number_issues(
    variable: Seq<char>,
    value: EnvVar,
    minimum: usize,
    maximum: usize,
) -> Seq<IssueView> {
    match value {
        EnvVar::Value(s) => match text::unsigned_value(s@, usize::MAX as nat) {
            Some(n) => if minimum <= n <= maximum {
                Seq::empty()
            } else {
                issue(variable, range_message(minimum, maximum))
            },
            None => issue(variable, range_message(minimum, maximum)),
        },
        _ => Seq::empty(),
    }
}

/// The message for a number out of its range.
pub open spec fn range_message(minimum: usize, maximum: usize) -> Seq<char> {
    "必须是 "@ + text::decimal(minimum as nat) + "..="@ + text::decimal(maximum as nat)
        + " 的整数"@
}

/// Notes a setting that must be a number in a range and is not.
pub fn validate_usize(
    variable: &'static str,
    value: &EnvVar,
    minimum: usize,
    maximum: usize,
    issues: &mut Vec<ConfigIssue>,
)
    ensures
        issue_views(final(issues)@) == issue_views(old(issues)@) + number_issues(
            variable@,
            *value,
            minimum,
            maximum,
        ),
{
    proof {
        lemma_no_issue(issues@);
    }
    match value {
        EnvVar::Value(s) => {
            let fits = match text::parse_unsigned(s.as_str(), usize::MAX as u64) {
                Some(n) => minimum as u64 <= n && n <= maximum as u64,
                None => false,
            };
            if !fits {
                let mut m = "必须是 ".to_owned();
                m.append(text::decimal_text(minimum as u64).as_str());
                m.append("..=");
                m.append(text::decimal_text(maximum as u64).as_str());
                m.append(" 的整数");
                push_issue(issues, variable, m);
            }
        },
        _ => {},
    }
}

/// A text that writes a truth value.
pub open spec fn is_bool_word(s: Seq<char>) -> bool {
    is_true_word(s) || s == "0"@ || s == "false"@ || s == "no"@ || s == "off"@
}

/// A text that writes "true".
pub open spec fn is_true_word(s: Seq<char>) -> bool {
    s == "1"@ || s == "true"@ || s == "yes"@ || s == "on"@
}

/// What is wrong with a setting that must be a truth value, where it is set.
pub open spec fn bool_issues(variable: Seq<char>, value: EnvVar) -> Seq<IssueView> {
    match value {
        EnvVar::Value(s) => if is_bool_word(text::lower(text::trim(s@))) {
            Seq::empty()
        } else {
            issue(variable, "必须是 true/false、1/0、yes/no 或 on/off"@)
        },
        _ => Seq::empty(),
    }
}

/// Tests for a text that writes "true".
pub fn says_true(s: &str) -> (r: bool)
    ensures
        r == is_true_word(s@),
{
    text::same(s, "1") || text::same(s, "true") || text::same(s, "yes") || text::same(s, "on")
}

/// Notes a setting that must be a truth value and is not.
pub fn validate_bool(variable: &'static str, value: &EnvVar, issues: &mut Vec<ConfigIssue>)
    ensures
        issue_views(final(issues)@) == issue_views(old(issues)@) + bool_issues(variable@, *value),
{
    proof {
        lemma_no_issue(issues@);
    }
    match value {
        EnvVar::Value(s) => {
            let w = text::lower_text(text::trim_text(s.as_str()).as_str());
            let w = w.as_str();
            if !(says_true(w) || text::same(w, "0") || text::same(w, "false") || text::same(
                w,
                "no",
            ) || text::same(w, "off")) {
                push_issue(
                    issues,
                    variable,
                    "必须是 true/false、1/0、yes/no 或 on/off".to_owned(),
                );
            }
        },
        _ => {},
    }
}

/// The scheme that `reqwest::Url` finds in a text, or the message of its error.
pub uninterp spec fn url_scheme_of(s: Seq<char>) -> Result<Seq<char>, Seq<char>>;

/// The scheme of a URL.
pub open spec fn scheme(s: Seq<char>) -> Result<Seq<char>, Seq<char>> {
    Ok(s)
}

/// A text that is no URL.
pub open spec fn no_url(e: Seq<char>) -> Result<Seq<char>, Seq<char>> {
    Err(e)
}

/// `reqwest::Url::parse`, and the scheme of what it finds. Depends on the text alone.
#[verifier::external_body]
fn url_scheme(s: &str) -> (r: Result<String, String>)
    ensures
        r is Ok ==> url_scheme_of(s@) == scheme(r->Ok_0@),
        r is Err ==> url_scheme_of(s@) == no_url(r->Err_0@),
{
    match reqwest::Url::parse(s) {
        Ok(url) => Ok(url.scheme().to_owned()),
        Err(error) => Err(error.to_string()),
    }
}

/// What is wrong with the address of the model: only a local model needs none.
pub open spec fn url_issues(api_type: Option<ApiType>, value: EnvVar) -> Seq<IssueView> {
    let variable = "OPENAI_BASE_URL"@;
    match value {
        EnvVar::Value(s) => if text::blank(s@) {
            issue(variable, "不能为空"@)
        } else {
            match url_scheme_of(s@) {
                Ok(found) => if found == "http"@ || found == "https"@ {
                    Seq::empty()
                } else {
                    issue(variable, "必须使用 http:// 或 https://"@)
                },
                Err(e) => issue(variable, "不是合法 URL："@ + e),
            }
        },
        EnvVar::Missing => if api_type == Some(ApiType::Ollama) {
            Seq::empty()
        } else {
            issue(variable, "未设置"@)
        },
        EnvVar::NotUnicode(e) => issue(variable, unreadable(e@)),
    }
}

/// Notes what is wrong with the address of the model, given what `reqwest` found in it.
pub fn judge_base_url(
    api_type: Option<ApiType>,
    value: &EnvVar,
    found: Result<String, String>,
    issues: &mut Vec<ConfigIssue>,
)
    ensures
        issue_views(final(issues)@) == issue_views(old(issues)@) + (match *value {
            EnvVar::Value(s) => if text::blank(s@) {
                issue("OPENAI_BASE_URL"@, "不能为空"@)
            } else {
                match found {
                    Ok(f) => if f@ == "http"@ || f@ == "https"@ {
                        Seq::empty()
                    } else {
                        issue("OPENAI_BASE_URL"@, "必须使用 http:// 或 https://"@)
                    },
                    Err(e) => issue("OPENAI_BASE_URL"@, "不是合法 URL："@ + e@),
                }
            },
            _ => url_issues(api_type, *value),
        }),
{
    proof {
        lemma_no_issue(issues@);
    }
    match value {
        EnvVar::Value(s) => {
            if text::is_blank(s.as_str()) {
                push_issue(issues, "OPENAI_BASE_URL", "不能为空".to_owned());
            } else {
                match found {
                    Ok(f) => {
                        if !(text::same(f.as_str(), "http") || text::same(f.as_str(), "https")) {
                            push_issue(
                                issues,
                                "OPENAI_BASE_URL",
                                "必须使用 http:// 或 https://".to_owned(),
                            );
                        }
                    },
                    Err(e) => {
                        let mut m = "不是合法 URL：".to_owned();
                        m.append(e.as_str());
                        push_issue(issues, "OPENAI_BASE_URL", m);
                    },
                }
            }
        },
        EnvVar::Missing => {
            let local = match api_type {
                Some(t) => t == ApiType::Ollama,
                None => false,
            };
            if !local {
                push_issue(issues, "OPENAI_BASE_URL", "未设置".to_owned());
            }
        },
        EnvVar::NotUnicode(e) => push_issue(
            issues,
            "OPENAI_BASE_URL",
            unreadable_text(e.as_str()),
        ),
    }
}

/// Notes what is wrong with the address of the model.
pub fn validate_base_url(
    api_type: Option<ApiType>,
    value: &EnvVar,
    issues: &mut Vec<ConfigIssue>,
)
    ensures
        issue_views(final(issues)@) == issue_views(old(issues)@) + url_issues(api_type, *value),
{
    let found = match value {
        EnvVar::Value(s) => url_scheme(s.as_str()),
        _ => Ok(String::new()),
    };
    judge_base_url(api_type, value, found, issues);
}

/// The settings of a process, by name.
#[derive(Debug)]
pub struct Environment {
    pub vars: Vec<(String, EnvVar)>,
}

/// The setting of the given name, from position `from` on.
pub open spec fn env_from(vars: Seq<(String, EnvVar)>, name: Seq<char>, from: int) -> EnvVar
    decreases vars.len() - from,
{
    if from < 0 || from >= vars.len() {
        EnvVar::Missing
    } else if vars[from].0@ == name {
        vars[from].1
    } else {
        env_from(vars, name, from + 1)
    }
}

/// The setting of the given name.
pub open spec fn env_at(vars: Seq<(String, EnvVar)>, name: Seq<char>) -> EnvVar {
    env_from(vars, name, 0)
}

impl Environment {
    /// The setting of the given name.
    pub fn lookup(&self, name: &str) -> (r: EnvVar)
        ensures
            r == env_at(self.vars@, name@),
    {
        let mut i: usize = 0;
        while i < self.vars.len()
            invariant
                i <= self.vars@.len(),
                env_at(self.vars@, name@) == env_from(self.vars@, name@, i as int),
            decreases self.vars@.len() - i,
        {
            if text::same(self.vars[i].0.as_str(), name) {
                return match &self.vars[i].1 {
                    EnvVar::Missing => EnvVar::Missing,
                    EnvVar::Value(s) => EnvVar::Value(s.clone()),
                    EnvVar::NotUnicode(e) => EnvVar::NotUnicode(e.clone()),
                };
            }
            i = i + 1;
        }
        EnvVar::Missing
    }
}

/// The number of a setting, or a default where it gives none.
pub open spec fn number_or(value: EnvVar, default: usize) -> usize {
    match value {
        EnvVar::Value(s) => match text::unsigned_value(s@, usize::MAX as nat) {
            Some(n) => n as usize,
            None => default,
        },
        _ => default,
    }
}

fn parsed_or(value: &EnvVar, default: usize) -> (r: usize)
    ensures
        r == number_or(*value, default),
{
    match value {
        EnvVar::Value(s) => match text::parse_unsigned(s.as_str(), usize::MAX as u64) {
            Some(n) => n as usize,
            None => default,
        },
        _ => default,
    }
}

/// What is wrong with the two thresholds together.
pub open spec fn threshold_issues(mild: EnvVar, strong: EnvVar) -> Seq<IssueView> {
    if number_or(mild, 60) >= number_or(strong, 85) {
        issue(
            "CONTEXT_MILD_PERCENT / CONTEXT_STRONG_PERCENT"@,
            "必须满足温和阈值小于强力阈值"@,
        )
    } else {
        Seq::empty()
    }
}

/// What is wrong with the choice of a protocol.
pub open spec fn api_issues(api_type: Result<ApiType, String>) -> Seq<IssueView> {
    match api_type {
        Ok(_) => Seq::empty(),
        Err(e) => issue("API_TYPE"@, e@),
    }
}

/// What is wrong with the key of the model, which a local model does not need.
pub open spec fn key_issues(api_type: Result<ApiType, String>, key: EnvVar) -> Seq<IssueView> {
    if api_type == Ok::<ApiType, String>(ApiType::Ollama) {
        Seq::empty()
    } else {
        required_issues("OPENAI_API_KEY"@, key)
    }
}

/// The protocol, where one was chosen.
pub open spec fn chosen(api_type: Result<ApiType, String>) -> Option<ApiType> {
    match api_type {
        Ok(t) => Some(t),
        Err(_) => None,
    }
}

/// Everything that is wrong with the numbers of the environment, in order.
pub open spec fn all_number_issues(vars: Seq<(String, EnvVar)>) -> Seq<IssueView> {
    number_issues("CONTEXT_TOKEN_BUDGET"@, env_at(vars, "CONTEXT_TOKEN_BUDGET"@), 256, usize::MAX) + number_issues("CONTEXT_RECENT_MESSAGES"@, env_at(vars, "CONTEXT_RECENT_MESSAGES"@), 1, usize::MAX) + number_issues("CONTEXT_MILD_PERCENT"@, env_at(vars, "CONTEXT_MILD_PERCENT"@), 1, 99) + number_issues("CONTEXT_STRONG_PERCENT"@, env_at(vars, "CONTEXT_STRONG_PERCENT"@), 2, 100) + number_issues("SKILLS_MAX_MATCHES"@, env_at(vars, "SKILLS_MAX_MATCHES"@), 1, 64) + number_issues("CRON_TICK_SECONDS"@, env_at(vars, "CRON_TICK_SECONDS"@), 1, usize::MAX) + number_issues("CRON_STAGGER_SECONDS"@, env_at(vars, "CRON_STAGGER_SECONDS"@), 0, usize::MAX) + number_issues("CRON_RUN_TIMEOUT_SECS"@, env_at(vars, "CRON_RUN_TIMEOUT_SECS"@), 1, usize::MAX) + number_issues("HEARTBEAT_INTERVAL_SECS"@, env_at(vars, "HEARTBEAT_INTERVAL_SECS"@), 1, usize::MAX)
}

/// Everything that is wrong with the truth values of the environment, in order.
pub open spec fn all_bool_issues(vars: Seq<(String, EnvVar)>) -> Seq<IssueView> {
    bool_issues("MULTIMODAL_ENABLED"@, env_at(vars, "MULTIMODAL_ENABLED"@)) + bool_issues("OLLAMA_TOOLS_ENABLED"@, env_at(vars, "OLLAMA_TOOLS_ENABLED"@)) + bool_issues("HEARTBEAT_ENABLED"@, env_at(vars, "HEARTBEAT_ENABLED"@))
}

/// Everything that is wrong with the environment, in order.
pub open spec fn environment_issues(
    vars: Seq<(String, EnvVar)>,
    api_type: Result<ApiType, String>,
) -> Seq<IssueView> {
    api_issues(api_type) + key_issues(api_type, env_at(vars, "OPENAI_API_KEY"@)) + url_issues(
        chosen(api_type),
        env_at(vars, "OPENAI_BASE_URL"@),
    ) + required_issues("MODEL_NAME"@, env_at(vars, "MODEL_NAME"@)) + all_number_issues(vars)
        + threshold_issues(
        env_at(vars, "CONTEXT_MILD_PERCENT"@),
        env_at(vars, "CONTEXT_STRONG_PERCENT"@),
    ) + all_bool_issues(vars)
}

fn check_numbers(env: &Environment) -> (issues: Vec<ConfigIssue>)
    ensures
        issue_views(issues@) == all_number_issues(env.vars@),
{
    let mut issues: Vec<ConfigIssue> = Vec::new();
    assert(issue_views(issues@) =~= Seq::<IssueView>::empty());
    validate_usize("CONTEXT_TOKEN_BUDGET", &env.lookup("CONTEXT_TOKEN_BUDGET"), 256, usize::MAX, &mut issues);
    validate_usize("CONTEXT_RECENT_MESSAGES", &env.lookup("CONTEXT_RECENT_MESSAGES"), 1, usize::MAX, &mut issues);
    validate_usize("CONTEXT_MILD_PERCENT", &env.lookup("CONTEXT_MILD_PERCENT"), 1, 99, &mut issues);
    validate_usize("CONTEXT_STRONG_PERCENT", &env.lookup("CONTEXT_STRONG_PERCENT"), 2, 100, &mut issues);
    validate_usize("SKILLS_MAX_MATCHES", &env.lookup("SKILLS_MAX_MATCHES"), 1, 64, &mut issues);
    validate_usize("CRON_TICK_SECONDS", &env.lookup("CRON_TICK_SECONDS"), 1, usize::MAX, &mut issues);
    validate_usize("CRON_STAGGER_SECONDS", &env.lookup("CRON_STAGGER_SECONDS"), 0, usize::MAX, &mut issues);
    validate_usize("CRON_RUN_TIMEOUT_SECS", &env.lookup("CRON_RUN_TIMEOUT_SECS"), 1, usize::MAX, &mut issues);
    validate_usize("HEARTBEAT_INTERVAL_SECS", &env.lookup("HEARTBEAT_INTERVAL_SECS"), 1, usize::MAX, &mut issues);
    assert(issue_views(issues@) =~= all_number_issues(env.vars@));
    issues
}

fn check_bools(env: &Environment) -> (issues: Vec<ConfigIssue>)
    ensures
        issue_views(issues@) == all_bool_issues(env.vars@),
{
    let mut issues: Vec<ConfigIssue> = Vec::new();
    assert(issue_views(issues@) =~= Seq::<IssueView>::empty());
    validate_bool("MULTIMODAL_ENABLED", &env.lookup("MULTIMODAL_ENABLED"), &mut issues);
    validate_bool("OLLAMA_TOOLS_ENABLED", &env.lookup("OLLAMA_TOOLS_ENABLED"), &mut issues);
    validate_bool("HEARTBEAT_ENABLED", &env.lookup("HEARTBEAT_ENABLED"), &mut issues);
    assert(issue_views(issues@) =~= all_bool_issues(env.vars@));
    issues
}

fn append_issues(issues: &mut Vec<ConfigIssue>, more: Vec<ConfigIssue>)
    ensures
        issue_views(final(issues)@) == issue_views(old(issues)@) + issue_views(more@),
{
    let mut more = more;
    let ghost a = issues@;
    let ghost b = more@;
    issues.append(&mut more);
    assert(issue_views(issues@) =~= issue_views(a) + issue_views(b));
}

/// Everything that is wrong with the environment. `api_type` is the protocol that
/// the environment chooses, or why it chooses none.
pub fn check_environment(env: &Environment, api_type: &Result<ApiType, String>) -> (issues: Vec<
    ConfigIssue,
>)
    ensures
        issue_views(issues@) == environment_issues(env.vars@, *api_type),
{
    let mut issues: Vec<ConfigIssue> = Vec::new();
    assert(issue_views(issues@) =~= Seq::<IssueView>::empty());
    let mut known: Option<ApiType> = None;
    match api_type {
        Ok(t) => known = Some(*t),
        Err(e) => push_issue(&mut issues, "API_TYPE", e.clone()),
    }
    assert(issue_views(issues@) =~= api_issues(*api_type));
    let local = match known {
        Some(t) => t == ApiType::Ollama,
        None => false,
    };
    if !local {
        require_non_empty("OPENAI_API_KEY", &env.lookup("OPENAI_API_KEY"), &mut issues);
    }
    assert(issue_views(issues@) =~= api_issues(*api_type) + key_issues(
        *api_type,
        env_at(env.vars@, "OPENAI_API_KEY"@),
    ));
    validate_base_url(known, &env.lookup("OPENAI_BASE_URL"), &mut issues);
    require_non_empty("MODEL_NAME", &env.lookup("MODEL_NAME"), &mut issues);
    append_issues(&mut issues, check_numbers(env));
    let mild: usize = parsed_or(&env.lookup("CONTEXT_MILD_PERCENT"), 60);
    let strong: usize = parsed_or(&env.lookup("CONTEXT_STRONG_PERCENT"), 85);
    proof {
        lemma_no_issue(issues@);
    }
    if mild >= strong {
        push_issue(
            &mut issues,
            "CONTEXT_MILD_PERCENT / CONTEXT_STRONG_PERCENT",
            "必须满足温和阈值小于强力阈值".to_owned(),
        );
    }
    append_issues(&mut issues, check_bools(env));
    issues
}

/// The lines that explain how the settings are given.
pub const SETUP_HELP: &'static str =
    "\n推荐方式：先运行 `myagent serve` 打开 Web 设置，保存一次后所有终端复用；也可以继续使用环境变量。\n\nOpenAI 兼容示例：\n  export API_TYPE='openai-chat'\n  export OPENAI_API_KEY='你的密钥'\n  export OPENAI_BASE_URL='https://api.deepseek.com'\n  export MODEL_NAME='deepseek-chat'\nOllama 示例：\n  export API_TYPE='ollama'\n  export MODEL_NAME='qwen3'\n然后运行：myagent config check";

/// The issues as they are listed in one line.
pub open spec fn issue_lines(issues: Seq<IssueView>) -> Seq<Seq<char>> {
    Seq::new(issues.len(), |i: int| issues[i].variable + "："@ + issues[i].message)
}

/// Accepts an environment without issues; else says what is wrong and how to mend it.
pub fn validate_environment(
    env: &Environment,
    api_type: &Result<ApiType, String>,
    config_path: &str,
) -> (r: Result<(), String>)
    ensures
        ({
            let issues = environment_issues(env.vars@, *api_type);
            match r {
                Ok(()) => issues.len() == 0,
                Err(e) => issues.len() > 0 && e@ == "配置校验失败："@ + text::join(
                    issue_lines(issues),
                    "；"@,
                ) + "\n\n配置来源：环境变量或全局配置文件 "@ + config_path@ + SETUP_HELP@,
            }
        }),
{
    let issues = check_environment(env, api_type);
    let ghost views = issue_views(issues@);
    if issues.len() == 0 {
        return Ok(());
    }
    let mut lines: Vec<String> = Vec::new();
    let mut i: usize = 0;
    while i < issues.len()
        invariant
            i <= issues@.len(),
            lines@.len() == i,
            forall|k: int|
                0 <= k < i ==> (#[trigger] lines@[k])@ == issues@[k]@.variable + "："@
                    + issues@[k]@.message,
        decreases issues@.len() - i,
    {
        let mut line = issues[i].variable.to_owned();
        line.append("：");
        line.append(issues[i].message.as_str());
        lines.push(line);
        i = i + 1;
    }
    assert(text::views(lines@) =~= issue_lines(views));
    let mut e = "配置校验失败：".to_owned();
    e.append(text::join_texts(&lines, "；").as_str());
    e.append("\n\n配置来源：环境变量或全局配置文件 ");
    e.append(config_path);
    e.append(SETUP_HELP);
    Err(e)
}

/// What is shown of a profile: everything but its key.
#[derive(Debug, PartialEq, Eq)]
pub struct ProfileSummary {
    pub id: String,
    pub name: String,
    pub api_type: ApiType,
    pub base_url: String,
    pub model: String,
    pub has_api_key: bool,
}

/// What a summary says.
pub struct SummaryView {
    pub id: Seq<char>,
    pub name: Seq<char>,
    pub api_type: ApiType,
    pub base_url: Seq<char>,
    pub model: Seq<char>,
    pub has_api_key: bool,
}

impl View for ProfileSummary {
    type V = SummaryView;

    open spec fn view(&self) -> SummaryView {
        SummaryView {
            id: self.id@,
            name: self.name@,
            api_type: self.api_type,
            base_url: self.base_url@,
            model: self.model@,
            has_api_key: self.has_api_key,
        }
    }
}

/// The summary of a profile; one without a name goes by its identifier.
pub open spec fn summary_of(p: ProfileView) -> SummaryView {
    SummaryView {
        id: p.id,
        name: if text::blank(p.name) {
            p.id
        } else {
            p.name
        },
        api_type: p.api_type,
        base_url: p.base_url,
        model: p.model,
        has_api_key: provider::has_key(p.api_key),
    }
}

impl ProfileSummary {
    /// The summary of a profile.
    pub fn from_profile(profile: &ProviderProfile) -> (r: Self)
        ensures
            r@ == summary_of(profile@),
    {
        ProfileSummary {
            id: profile.id.clone(),
            name: if text::is_blank(profile.name.as_str()) {
                profile.id.clone()
            } else {
                profile.name.clone()
            },
            api_type: profile.api_type,
            base_url: profile.base_url.clone(),
            model: profile.model.clone(),
            has_api_key: provider::key_is_set(&profile.api_key),
        }
    }
}

/// The file with the profiles.
#[derive(Debug)]
pub struct ConfigFile {
    pub active_profile: Option<String>,
    pub profiles: Vec<ProviderProfile>,
    pub fallback_profile_ids: Vec<String>,
}

/// What a configuration says.
pub struct ConfigView {
    pub active_profile: Option<Seq<char>>,
    pub profiles: Seq<ProfileView>,
    pub fallback_profile_ids: Seq<Seq<char>>,
}

/// What a list of profiles says.
pub open spec fn profile_views(v: Seq<ProviderProfile>) -> Seq<ProfileView> {
    Seq::new(v.len(), |i: int| v[i]@)
}

impl View for ConfigFile {
    type V = ConfigView;

    open spec fn view(&self) -> ConfigView {
        ConfigView {
            active_profile: json::opt_text(self.active_profile),
            profiles: profile_views(self.profiles@),
            fallback_profile_ids: text::views(self.fallback_profile_ids@),
        }
    }
}

/// Position of the first profile with the identifier, from `from` on; or the number
/// of profiles.
pub open spec fn profile_index(profiles: Seq<ProfileView>, id: Seq<char>, from: int) -> int
    decreases profiles.len() - from,
{
    if from < 0 || from >= profiles.len() {
        profiles.len() as int
    } else if profiles[from].id == id {
        from
    } else {
        profile_index(profiles, id, from + 1)
    }
}

/// Some profile has the identifier.
pub open spec fn has_profile(profiles: Seq<ProfileView>, id: Seq<char>) -> bool {
    exists|i: int| 0 <= i < profiles.len() && (#[trigger] profiles[i]).id == id
}

proof fn lemma_profile_index(profiles: Seq<ProfileView>, id: Seq<char>, from: int)
    requires
        0 <= from <= profiles.len(),
    ensures
        from <= profile_index(profiles, id, from) <= profiles.len(),
        profile_index(profiles, id, from) < profiles.len() ==> profiles[profile_index(
            profiles,
            id,
            from,
        )].id == id,
        forall|k: int|
            from <= k < profile_index(profiles, id, from) ==> (#[trigger] profiles[k]).id != id,
    decreases profiles.len() - from,
{
    if from < profiles.len() && profiles[from].id != id {
        lemma_profile_index(profiles, id, from + 1);
    }
}

/// Finds the first profile with the identifier.
pub fn find_profile(profiles: &Vec<ProviderProfile>, id: &str) -> (r: Option<usize>)
    ensures
        match r {
            Some(i) => i < profiles@.len() && i == profile_index(
                profile_views(profiles@),
                id@,
                0,
            ) && has_profile(profile_views(profiles@), id@),
            None => profile_index(profile_views(profiles@), id@, 0) == profiles@.len()
                && !has_profile(profile_views(profiles@), id@),
        },
{
    let ghost views = profile_views(profiles@);
    proof {
        lemma_profile_index(views, id@, 0);
    }
    let mut i: usize = 0;
    while i < profiles.len()
        invariant
            i <= profiles@.len(),
            views == profile_views(profiles@),
            profile_index(views, id@, 0) == profile_index(views, id@, i as int),
            forall|k: int| 0 <= k < i ==> (#[trigger] views[k]).id != id@,
        decreases profiles@.len() - i,
    {
        if text::same(profiles[i].id.as_str(), id) {
            assert(views[i as int].id == id@);
            return Some(i);
        }
        i = i + 1;
    }
    None
}

/// Why a configuration cannot be kept, if it cannot: the first profile that cannot be
/// used, an active profile that is not there, or a fallback that is not there.
pub open spec fn save_error(c: ConfigView) -> Option<Seq<char>> {
    if first_bad(c.profiles, 0) is Some {
        first_bad(c.profiles, 0)
    } else if c.active_profile is Some && !has_profile(c.profiles, c.active_profile->0) {
        Some("活动模型配置不存在："@ + c.active_profile->0)
    } else {
        first_missing(c.profiles, c.fallback_profile_ids, 0)
    }
}

/// The error of the first profile that cannot be used, from `from` on.
pub open spec fn first_bad(profiles: Seq<ProfileView>, from: int) -> Option<Seq<char>>
    decreases profiles.len() - from,
{
    if from < 0 || from >= profiles.len() {
        None
    } else if !provider::profile_ok(profiles[from]) {
        Some(provider::key_error(profiles[from].id))
    } else {
        first_bad(profiles, from + 1)
    }
}

/// The error of the first fallback that is not there, from `from` on.
pub open spec fn first_missing(
    profiles: Seq<ProfileView>,
    fallbacks: Seq<Seq<char>>,
    from: int,
) -> Option<Seq<char>>
    decreases fallbacks.len() - from,
{
    if from < 0 || from >= fallbacks.len() {
        None
    } else if !has_profile(profiles, fallbacks[from]) {
        Some("备用模型配置不存在："@ + fallbacks[from])
    } else {
        first_missing(profiles, fallbacks, from + 1)
    }
}

impl ConfigFile {
    /// A configuration without profiles.
    pub fn empty() -> (r: Self)
        ensures
            r@ == (ConfigView {
                active_profile: None,
                profiles: Seq::empty(),
                fallback_profile_ids: Seq::empty(),
            }),
    {
        let r = ConfigFile {
            active_profile: None,
            profiles: Vec::new(),
            fallback_profile_ids: Vec::new(),
        };
        assert(r@.profiles =~= Seq::<ProfileView>::empty());
        assert(r@.fallback_profile_ids =~= Seq::<Seq<char>>::empty());
        r
    }

    /// Tests whether a configuration can be kept.
    pub fn check_save(&self) -> (r: Result<(), String>)
        ensures
            match r {
                Ok(()) => save_error(self@) is None,
                Err(e) => save_error(self@) == Some(e@),
            },
    {
        let ghost profiles = self@.profiles;
        let ghost fallbacks = self@.fallback_profile_ids;
        let mut i: usize = 0;
        while i < self.profiles.len()
            invariant
                i <= self.profiles@.len(),
                profiles == profile_views(self.profiles@),
                self@.profiles == profiles,
                first_bad(profiles, 0) == first_bad(profiles, i as int),
            decreases self.profiles@.len() - i,
        {
            match self.profiles[i].validate() {
                Ok(()) => {},
                Err(e) => return Err(e),
            }
            i = i + 1;
        }
        if let Some(active) = &self.active_profile {
            if find_profile(&self.profiles, active.as_str()).is_none() {
                let mut e = "活动模型配置不存在：".to_owned();
                e.append(active.as_str());
                return Err(e);
            }
        }
        let mut i: usize = 0;
        while i < self.fallback_profile_ids.len()
            invariant
                i <= self.fallback_profile_ids@.len(),
                profiles == profile_views(self.profiles@),
                fallbacks == text::views(self.fallback_profile_ids@),
                self@.profiles == profiles,
                self@.fallback_profile_ids == fallbacks,
                first_bad(profiles, 0) is None,
                self@.active_profile is Some ==> has_profile(profiles, self@.active_profile->0),
                first_missing(profiles, fallbacks, 0) == first_missing(
                    profiles,
                    fallbacks,
                    i as int,
                ),
            decreases self.fallback_profile_ids@.len() - i,
        {
            let id = self.fallback_profile_ids[i].as_str();
            assert(fallbacks[i as int] == id@);
            if find_profile(&self.profiles, id).is_none() {
                let mut e = "备用模型配置不存在：".to_owned();
                e.append(id);
                return Err(e);
            }
            i = i + 1;
        }
        Ok(())
    }
}

/// The characters of an identifier: ASCII letters in lower case and digits; a dash
/// stands for anything else.
pub open spec fn id_char(c: char) -> char {
    if 'a' <= c <= 'z' || '0' <= c <= '9' {
        c
    } else if 'A' <= c <= 'Z' {
        text::ascii_lower(c)
    } else {
        '-'
    }
}

/// What an identifier is made from: the identifier given, else the name, else the model.
pub open spec fn id_source(id: Seq<char>, name: Seq<char>, model: Seq<char>) -> Seq<char> {
    if !text::blank(id) {
        id
    } else if !text::blank(name) {
        name
    } else {
        model
    }
}

/// A text without dashes at either end.
pub open spec fn undashed(s: Seq<char>) -> Seq<char> {
    text::trim_char_end(text::trim_char_start(s, '-'), '-')
}

/// The identifier that a text gives.
pub open spec fn normal_id(source: Seq<char>) -> Seq<char> {
    let s = undashed(text::trim(source).map_values(|c: char| id_char(c)));
    if s.len() == 0 {
        "model"@
    } else {
        s
    }
}

fn to_id_char(c: char) -> (r: char)
    ensures
        r == id_char(c),
{
    if ('a' <= c && c <= 'z') || ('0' <= c && c <= '9') {
        c
    } else if 'A' <= c && c <= 'Z' {
        text::to_ascii_lower(c)
    } else {
        '-'
    }
}

/// The identifier of a profile.
pub fn normalize_profile_id(id: &str, name: &str, model: &str) -> (r: String)
    ensures
        r@ == normal_id(id_source(id@, name@, model@)),
{
    let source = if text::is_blank(id) {
        if text::is_blank(name) {
            model
        } else {
            name
        }
    } else {
        id
    };
    let trimmed = text::trim_text(source);
    let v = text::chars_of(trimmed.as_str());
    let ghost mapped = trimmed@.map_values(|c: char| id_char(c));
    let mut s = String::new();
    let mut i: usize = 0;
    while i < v.len()
        invariant
            i <= v@.len(),
            v@ == trimmed@,
            mapped == trimmed@.map_values(|c: char| id_char(c)),
            s@ == mapped.take(i as int),
        decreases v@.len() - i,
    {
        s.push(to_id_char(v[i]));
        assert(mapped.take(i + 1) =~= mapped.take(i as int).push(mapped[i as int]));
        i = i + 1;
    }
    assert(mapped.take(i as int) =~= mapped);
    let head = text::trim_char_start_text(s.as_str(), '-');
    let normal = text::trim_char_end_text(head.as_str(), '-');
    if normal.as_str().is_empty() {
        "model".to_owned()
    } else {
        normal
    }
}

/// Where the configuration is kept.
#[derive(Debug)]
pub struct ConfigStore {
    pub path: String,
}

/// A profile as it is kept: with its identifier and name in order, no slash at the end
/// of its address, and the key of the profile it replaces where it brings none.
pub open spec fn prepared(profiles: Seq<ProfileView>, p: ProfileView) -> ProfileView {
    let id = normal_id(id_source(p.id, p.name, p.model));
    let at = profile_index(profiles, id, 0);
    ProfileView {
        id,
        name: if text::blank(p.name) {
            id
        } else {
            text::trim(p.name)
        },
        api_type: p.api_type,
        api_key: if p.api_key is None && at < profiles.len() {
            profiles[at].api_key
        } else {
            p.api_key
        },
        base_url: text::trim_char_end(p.base_url, '/'),
        model: p.model,
    }
}

/// A configuration with a profile put in place of the one with its identifier, or at
/// the end.
pub open spec fn upserted(c: ConfigView, p: ProfileView, activate: bool) -> ConfigView {
    let kept = prepared(c.profiles, p);
    let at = profile_index(c.profiles, kept.id, 0);
    ConfigView {
        profiles: if at < c.profiles.len() {
            c.profiles.update(at, kept)
        } else {
            c.profiles.push(kept)
        },
        active_profile: if activate || c.active_profile is None {
            Some(kept.id)
        } else {
            c.active_profile
        },
        fallback_profile_ids: c.fallback_profile_ids,
    }
}

/// Why a profile cannot be put into a configuration, if it cannot.
pub open spec fn upsert_error(c: ConfigView, p: ProfileView, activate: bool) -> Option<Seq<char>> {
    let kept = prepared(c.profiles, p);
    if provider::profile_ok(kept) {
        save_error(upserted(c, p, activate))
    } else {
        Some(provider::key_error(kept.id))
    }
}

/// Why a profile cannot be made the active one, if it cannot.
pub open spec fn activate_error(c: ConfigView, id: Seq<char>) -> Option<Seq<char>> {
    if has_profile(c.profiles, id) {
        save_error(ConfigView { active_profile: Some(id), ..c })
    } else {
        Some("不存在模型配置："@ + id)
    }
}

/// The profile in use: the active one, else the first.
pub open spec fn active_of(c: ConfigView) -> Option<ProfileView> {
    let at = match c.active_profile {
        Some(id) => profile_index(c.profiles, id, 0),
        None => c.profiles.len() as int,
    };
    if at < c.profiles.len() {
        Some(c.profiles[at])
    } else if c.profiles.len() > 0 {
        Some(c.profiles[0])
    } else {
        None
    }
}

impl ConfigStore {
    /// A store at the given path.
    pub fn new(path: &str) -> (r: Self)
        ensures
            r.path@ == path@,
    {
        ConfigStore { path: path.to_owned() }
    }

    /// The path of the store.
    pub fn path(&self) -> (r: &str)
        ensures
            r@ == self.path@,
    {
        self.path.as_str()
    }

    /// The profile in use.
    pub fn active_profile(&self, config: &ConfigFile) -> (r: Option<ProviderProfile>)
        ensures
            match r {
                Some(p) => active_of(config@) == Some(p@),
                None => active_of(config@) is None,
            },
    {
        if let Some(id) = &config.active_profile {
            if let Some(i) = find_profile(&config.profiles, id.as_str()) {
                return Some(config.profiles[i].clone());
            }
        }
        if config.profiles.len() > 0 {
            Some(config.profiles[0].clone())
        } else {
            None
        }
    }

    /// Puts a profile into a configuration, where the outcome can be kept.
    pub fn upsert(&self, config: ConfigFile, profile: ProviderProfile, activate: bool) -> (r:
        Result<ConfigFile, String>)
        ensures
            match upsert_error(config@, profile@, activate) {
                None => r is Ok && r->Ok_0@ == upserted(config@, profile@, activate),
                Some(e) => r is Err && r->Err_0@ == e,
            },
    {
        let ghost before = config@;
        let mut config = config;
        let mut profile = profile;
        let ghost given = profile@;
        let id = normalize_profile_id(
            profile.id.as_str(),
            profile.name.as_str(),
            profile.model.as_str(),
        );
        profile.name = if text::is_blank(profile.name.as_str()) {
            id.clone()
        } else {
            text::trim_text(profile.name.as_str())
        };
        profile.base_url = text::trim_char_end_text(profile.base_url.as_str(), '/');
        profile.id = id.clone();
        let found = find_profile(&config.profiles, id.as_str());
        if let Some(i) = found {
            if profile.api_key.is_none() {
                profile.api_key = provider::clone_opt(&config.profiles[i].api_key);
            }
        }
        proof {
            lemma_profile_index(before.profiles, id@, 0);
            assert(profile@ == prepared(before.profiles, given));
        }
        if let Err(e) = profile.validate() {
            return Err(e);
        }
        let ghost kept = profile@;
        match found {
            Some(i) => {
                config.profiles.set(i, profile);
                assert(profile_views(config.profiles@) =~= before.profiles.update(
                    i as int,
                    kept,
                ));
            },
            None => {
                config.profiles.push(profile);
                assert(profile_views(config.profiles@) =~= before.profiles.push(kept));
            },
        }
        if activate || config.active_profile.is_none() {
            config.active_profile = Some(id);
        }
        assert(config@ == upserted(before, given, activate));
        match config.check_save() {
            Ok(()) => Ok(config),
            Err(e) => Err(e),
        }
    }

    /// Makes a profile the active one, where it is there and the outcome can be kept.
    pub fn activate(&self, config: ConfigFile, id: &str) -> (r: Result<
        (ProviderProfile, ConfigFile),
        String,
    >)
        ensures
            match activate_error(config@, id@) {
                None => r is Ok && r->Ok_0.0@ == config@.profiles[profile_index(
                    config@.profiles,
                    id@,
                    0,
                )] && r->Ok_0.1@ == (ConfigView { active_profile: Some(id@), ..config@ }),
                Some(e) => r is Err && r->Err_0@ == e,
            },
    {
        let mut config = config;
        let at: usize = match find_profile(&config.profiles, id) {
            Some(i) => i,
            None => {
                let mut e = "不存在模型配置：".to_owned();
                e.append(id);
                return Err(e);
            },
        };
        let profile = config.profiles[at].clone();
        config.active_profile = Some(id.to_owned());
        match config.check_save() {
            Ok(()) => Ok((profile, config)),
            Err(e) => Err(e),
        }
    }
}

/// A path below another.
pub open spec fn below(base: Seq<char>, rest: Seq<char>) -> Seq<char> {
    if base.len() == 0 || base.last() == '/' {
        base + rest
    } else {
        base + "/"@ + rest
    }
}

/// A path below another.
pub fn join_path(base: &str, rest: &str) -> (r: String)
    ensures
        r@ == below(base@, rest@),
{
    let v = text::chars_of(base);
    let mut r = base.to_owned();
    if v.len() > 0 && v[v.len() - 1] != '/' {
        r.append("/");
    }
    r.append(rest);
    r
}

/// Where the configuration is kept: where a setting says, else in the configuration
/// directory, else in the home directory, else in the current one.
pub fn default_config_path(
    explicit: Option<&str>,
    xdg_config_home: Option<&str>,
    home: Option<&str>,
) -> (r: String)
    ensures
        r@ == (match (explicit, xdg_config_home, home) {
            (Some(p), _, _) => p@,
            (None, Some(d), _) => below(d@, "my-agent/config.json"@),
            (None, None, Some(d)) => below(d@, ".config/my-agent/config.json"@),
            (None, None, None) => ".my-agent/config.json"@,
        }),
{
    match (explicit, xdg_config_home, home) {
        (Some(p), _, _) => p.to_owned(),
        (None, Some(d), _) => join_path(d, "my-agent/config.json"),
        (None, None, Some(d)) => join_path(d, ".config/my-agent/config.json"),
        (None, None, None) => ".my-agent/config.json".to_owned(),
    }
}

/// The settings that a profile brings, in order.
pub open spec fn profile_settings(p: ProfileView) -> Seq<(Seq<char>, Seq<char>)> {
    let base = seq![
        ("API_TYPE"@, provider::api_name(p.api_type)),
        ("OPENAI_BASE_URL"@, p.base_url),
        ("MODEL_NAME"@, p.model),
    ];
    match p.api_key {
        Some(k) => base.push(("OPENAI_API_KEY"@, k)),
        None => base,
    }
}

/// What a list of settings says.
pub open spec fn setting_views(v: Seq<(String, String)>) -> Seq<(Seq<char>, Seq<char>)> {
    Seq::new(v.len(), |i: int| (v[i].0@, v[i].1@))
}

/// The settings of a profile that the environment does not have.
pub open spec fn missing_settings(
    settings: Seq<(Seq<char>, Seq<char>)>,
    vars: Seq<(String, EnvVar)>,
) -> Seq<(Seq<char>, Seq<char>)>
    decreases settings.len(),
{
    if settings.len() == 0 {
        Seq::empty()
    } else {
        let rest = missing_settings(settings.drop_last(), vars);
        if env_at(vars, settings.last().0) is Missing {
            rest.push(settings.last())
        } else {
            rest
        }
    }
}

fn add_setting(
    out: &mut Vec<(String, String)>,
    env: &Environment,
    name: &str,
    value: &str,
    Ghost(done): Ghost<Seq<(Seq<char>, Seq<char>)>>,
)
    requires
        setting_views(old(out)@) == missing_settings(done, env.vars@),
    ensures
        setting_views(final(out)@) == missing_settings(done.push((name@, value@)), env.vars@),
{
    let ghost before = setting_views(out@);
    proof {
        assert(done.push((name@, value@)).drop_last() =~= done);
    }
    if let EnvVar::Missing = env.lookup(name) {
        out.push((name.to_owned(), value.to_owned()));
        assert(setting_views(out@) =~= before.push((name@, value@)));
    }
}

/// The settings of the active profile that are to be added to the environment: those
/// that it does not have.
pub fn load_persisted_environment(profile: Option<&ProviderProfile>, env: &Environment) -> (r: Vec<
    (String, String),
>)
    ensures
        setting_views(r@) == (match profile {
            Some(p) => missing_settings(profile_settings(p@), env.vars@),
            None => Seq::empty(),
        }),
{
    let mut out: Vec<(String, String)> = Vec::new();
    let ghost mut done: Seq<(Seq<char>, Seq<char>)> = Seq::empty();
    assert(setting_views(out@) =~= Seq::<(Seq<char>, Seq<char>)>::empty());
    if let Some(p) = profile {
        add_setting(&mut out, env, "API_TYPE", p.api_type.as_str(), Ghost(done));
        proof {
            done = done.push(("API_TYPE"@, provider::api_name(p.api_type)));
        }
        add_setting(&mut out, env, "OPENAI_BASE_URL", p.base_url.as_str(), Ghost(done));
        proof {
            done = done.push(("OPENAI_BASE_URL"@, p@.base_url));
        }
        add_setting(&mut out, env, "MODEL_NAME", p.model.as_str(), Ghost(done));
        proof {
            done = done.push(("MODEL_NAME"@, p@.model));
        }
        if let Some(k) = &p.api_key {
            add_setting(&mut out, env, "OPENAI_API_KEY", k.as_str(), Ghost(done));
            proof {
                done = done.push(("OPENAI_API_KEY"@, k@));
            }
        }
        assert(done =~= profile_settings(p@));
    }
    out
}

/// The form of an identifier: not empty, letters in lower case, digits and dashes, and
/// no dash at either end.
pub open spec fn is_normal_id(s: Seq<char>) -> bool {
    &&& s.len() > 0
    &&& s[0] != '-'
    &&& s.last() != '-'
    &&& forall|i: int|
        0 <= i < s.len() ==> ('a' <= #[trigger] s[i] <= 'z' || '0' <= s[i] <= '9' || s[i] == '-')
}

/// An identifier always has its form, and making it again changes nothing.
pub proof fn law_normal_ids(source: Seq<char>)
    ensures
        is_normal_id(normal_id(source)),
        normal_id(normal_id(source)) == normal_id(source),
{
    reveal_strlit("model");
    let mapped = text::trim(source).map_values(|c: char| id_char(c));
    let head = text::trim_char_start(mapped, '-');
    let s = text::trim_char_end(head, '-');
    text::lemma_trim_char_start_shape(mapped, '-');
    text::lemma_trim_char_end_shape(head, '-');
    let r = normal_id(source);
    if s.len() > 0 {
        assert(s[0] == head[0]);
        assert forall|i: int| 0 <= i < s.len() implies ('a' <= #[trigger] s[i] <= 'z' || '0'
            <= s[i] <= '9' || s[i] == '-') by {
            assert(s[i] == head[i]);
            let k = mapped.len() - head.len() + i;
            assert(head[i] == mapped[k]);
            assert(mapped[k] == id_char(text::trim(source)[k]));
        }
    }
    assert(is_normal_id(r));
    text::lemma_trim_unchanged(r);
    assert(r.map_values(|c: char| id_char(c)) =~= r);
    text::lemma_trim_char_start_shape(r, '-');
    text::lemma_trim_char_end_shape(r, '-');
}

/// A profile that is put in and made active is the profile in use, and it is the only
/// one that changed.
pub proof fn law_upsert_activates(c: ConfigView, p: ProfileView)
    ensures
        active_of(upserted(c, p, true)) == Some(prepared(c.profiles, p)),
        ({
            let after = upserted(c, p, true).profiles;
            let id = prepared(c.profiles, p).id;
            forall|i: int|
                0 <= i < c.profiles.len() && (#[trigger] c.profiles[i]).id != id ==> after[i]
                    == c.profiles[i]
        }),
{
    let kept = prepared(c.profiles, p);
    let at = profile_index(c.profiles, kept.id, 0);
    lemma_profile_index(c.profiles, kept.id, 0);
    let after = upserted(c, p, true).profiles;
    lemma_profile_index(after, kept.id, 0);
    assert(after[at].id == kept.id);
    let found = profile_index(after, kept.id, 0);
    if found < at {
        assert(after[found] == c.profiles[found]);
    }
}

/// A key that was given once stays when the profile is put in again without one.
pub proof fn law_upsert_keeps_key(c: ConfigView, p: ProfileView, again: ProfileView, activate: bool)
    requires
        again.api_key is None,
        normal_id(id_source(p.id, p.name, p.model)) == normal_id(
            id_source(again.id, again.name, again.model),
        ),
    ensures
        prepared(upserted(c, p, activate).profiles, again).api_key == prepared(
            c.profiles,
            p,
        ).api_key,
{
    let kept = prepared(c.profiles, p);
    let at = profile_index(c.profiles, kept.id, 0);
    lemma_profile_index(c.profiles, kept.id, 0);
    let after = upserted(c, p, activate).profiles;
    lemma_profile_index(after, kept.id, 0);
    assert(after[at].id == kept.id);
    let found = profile_index(after, kept.id, 0);
    if found < at {
        assert(after[found] == c.profiles[found]);
    }
}

/// A configuration that could be kept can still be kept after a usable profile was put
/// in.
pub proof fn law_upsert_stays_keepable(c: ConfigView, p: ProfileView, activate: bool)
    requires
        save_error(c) is None,
        provider::profile_ok(prepared(c.profiles, p)),
    ensures
        save_error(upserted(c, p, activate)) is None,
{
    let kept = prepared(c.profiles, p);
    let at = profile_index(c.profiles, kept.id, 0);
    lemma_profile_index(c.profiles, kept.id, 0);
    let after = upserted(c, p, activate);
    lemma_first_bad(c.profiles, 0);
    assert forall|i: int| 0 <= i < after.profiles.len() implies provider::profile_ok(
        #[trigger] after.profiles[i],
    ) by {
        if i != at {
            assert(after.profiles[i] == c.profiles[i]);
        }
    }
    lemma_all_good(after.profiles, 0);
    assert forall|id: Seq<char>| has_profile(c.profiles, id) implies has_profile(
        after.profiles,
        id,
    ) by {
        let i = choose|i: int| 0 <= i < c.profiles.len() && (#[trigger] c.profiles[i]).id == id;
        assert(after.profiles[i].id == id);
    }
    assert(after.profiles[at].id == kept.id);
    assert(has_profile(after.profiles, kept.id));
    lemma_fallbacks_stay(c.profiles, after.profiles, c.fallback_profile_ids, 0);
}

proof fn lemma_first_bad(profiles: Seq<ProfileView>, from: int)
    requires
        0 <= from,
        first_bad(profiles, from) is None,
    ensures
        forall|i: int|
            from <= i < profiles.len() ==> provider::profile_ok(#[trigger] profiles[i]),
    decreases profiles.len() - from,
{
    if from < profiles.len() {
        lemma_first_bad(profiles, from + 1);
    }
}

proof fn lemma_all_good(profiles: Seq<ProfileView>, from: int)
    requires
        0 <= from,
        forall|i: int|
            from <= i < profiles.len() ==> provider::profile_ok(#[trigger] profiles[i]),
    ensures
        first_bad(profiles, from) is None,
    decreases profiles.len() - from,
{
    if from < profiles.len() {
        lemma_all_good(profiles, from + 1);
    }
}

proof fn lemma_fallbacks_stay(
    before: Seq<ProfileView>,
    after: Seq<ProfileView>,
    fallbacks: Seq<Seq<char>>,
    from: int,
)
    requires
        0 <= from,
        first_missing(before, fallbacks, from) is None,
        forall|id: Seq<char>| has_profile(before, id) ==> has_profile(after, id),
    ensures
        first_missing(after, fallbacks, from) is None,
    decreases fallbacks.len() - from,
{
    if from < fallbacks.len() {
        lemma_fallbacks_stay(before, after, fallbacks, from + 1);
    }
}

/// The first profile with an identifier is the one it stands for.
pub proof fn law_profiles_are_found_by_id(profiles: Seq<ProfileView>, id: Seq<char>)
    ensures
        0 <= profile_index(profiles, id, 0) <= profiles.len(),
        profile_index(profiles, id, 0) == profiles.len() <==> forall|i: int|
            0 <= i < profiles.len() ==> (#[trigger] profiles[i]).id != id,
        profile_index(profiles, id, 0) < profiles.len() ==> profiles[profile_index(
            profiles,
            id,
            0,
        )].id == id,
        forall|i: int|
            0 <= i < profile_index(profiles, id, 0) ==> (#[trigger] profiles[i]).id != id,
{
    lemma_profile_index(profiles, id, 0);
}

/// The profile in use is the one that was chosen; where none was, or it is gone, the first;
/// without profiles none.
pub proof fn law_the_profile_in_use(c: ConfigView)
    ensures
        active_of(c) is None <==> c.profiles.len() == 0,
        active_of(c) is Some ==> c.profiles.contains(active_of(c)->0),
        c.active_profile is Some && has_profile(c.profiles, c.active_profile->0) ==> active_of(
            c,
        ) is Some && active_of(c)->0.id == c.active_profile->0,
        c.profiles.len() > 0 && (c.active_profile is None || !has_profile(
            c.profiles,
            c.active_profile->0,
        )) ==> active_of(c) == Some(c.profiles[0]),
{
    if c.active_profile is Some {
        lemma_profile_index(c.profiles, c.active_profile->0, 0);
    }
}

/// What is kept of a profile that is put in: its service and its model as given, its address
/// without slashes at the end, its name without white space around it, and its key, or the
/// one known for it where none was given.
pub proof fn law_what_is_kept_of_a_profile(profiles: Seq<ProfileView>, p: ProfileView)
    ensures
        prepared(profiles, p).model == p.model,
        prepared(profiles, p).api_type == p.api_type,
        p.api_key is Some ==> prepared(profiles, p).api_key == p.api_key,
        p.api_key is None && !has_profile(profiles, prepared(profiles, p).id) ==> prepared(
            profiles,
            p,
        ).api_key is None,
        !text::blank(p.name) ==> prepared(profiles, p).name == text::trim(p.name),
        text::blank(p.name) ==> prepared(profiles, p).name == prepared(profiles, p).id,
        prepared(profiles, p).base_url.is_prefix_of(p.base_url),
        prepared(profiles, p).base_url.len() > 0 ==> prepared(profiles, p).base_url.last() != '/',
        forall|i: int|
            prepared(profiles, p).base_url.len() <= i < p.base_url.len() ==> #[trigger] p.base_url[i]
                == '/',
        !text::blank(p.id) ==> prepared(profiles, p).id == normal_id(p.id),
        text::blank(p.id) && !text::blank(p.name) ==> prepared(profiles, p).id == normal_id(p.name),
        text::blank(p.id) && text::blank(p.name) ==> prepared(profiles, p).id == normal_id(p.model),
{
    lemma_profile_index(profiles, prepared(profiles, p).id, 0);
    text::lemma_trim_char_end_shape(p.base_url, '/');
    lemma_trimmed_slashes(p.base_url);
    let at = profile_index(profiles, prepared(profiles, p).id, 0);
    if at < profiles.len() {
        assert(profiles[at].id == prepared(profiles, p).id);
    }
}

proof fn lemma_trimmed_slashes(s: Seq<char>)
    ensures
        forall|i: int|
            text::trim_char_end(s, '/').len() <= i < s.len() ==> #[trigger] s[i] == '/',
    decreases s.len(),
{
    if s.len() > 0 && s.last() == '/' {
        lemma_trimmed_slashes(s.drop_last());
        assert forall|i: int| text::trim_char_end(s, '/').len() <= i < s.len() implies #[trigger] s[i]
            == '/' by {
            if i < s.len() - 1 {
                assert(s.drop_last()[i] == s[i]);
            }
        }
    }
}

/// Putting a profile in adds it, or takes the place of the one with its identifier: no other
/// profile and no fallback changes. It is made active where that was asked for or nothing
/// was active, and else what was active stays.
pub proof fn law_putting_a_profile_in(c: ConfigView, p: ProfileView, activate: bool)
    ensures
        ({
            let kept = prepared(c.profiles, p);
            let after = upserted(c, p, activate);
            &&& after.profiles.contains(kept)
            &&& after.fallback_profile_ids == c.fallback_profile_ids
            &&& has_profile(c.profiles, kept.id) ==> after.profiles.len() == c.profiles.len()
            &&& !has_profile(c.profiles, kept.id) ==> after.profiles == c.profiles.push(kept)
            &&& forall|i: int|
                0 <= i < c.profiles.len() && (#[trigger] c.profiles[i]).id != kept.id
                    ==> after.profiles[i] == c.profiles[i]
            &&& activate || c.active_profile is None ==> after.active_profile == Some(kept.id)
            &&& !activate && c.active_profile is Some ==> after.active_profile == c.active_profile
        }),
{
    let kept = prepared(c.profiles, p);
    let at = profile_index(c.profiles, kept.id, 0);
    lemma_profile_index(c.profiles, kept.id, 0);
    let after = upserted(c, p, activate);
    assert(after.profiles[at] == kept);
}

/// A configuration can be kept exactly where every profile is usable and the active one and
/// all fallbacks exist.
pub proof fn law_what_can_be_kept(c: ConfigView)
    ensures
        save_error(c) is None <==> (forall|i: int|
            0 <= i < c.profiles.len() ==> provider::profile_ok(#[trigger] c.profiles[i])) && (
        c.active_profile is Some ==> has_profile(c.profiles, c.active_profile->0)) && forall|i: int|
            0 <= i < c.fallback_profile_ids.len() ==> has_profile(
                c.profiles,
                #[trigger] c.fallback_profile_ids[i],
            ),
{
    if first_bad(c.profiles, 0) is None {
        lemma_first_bad(c.profiles, 0);
    }
    if forall|i: int| 0 <= i < c.profiles.len() ==> provider::profile_ok(#[trigger] c.profiles[i]) {
        lemma_all_good(c.profiles, 0);
    }
    lemma_missing_fallbacks(c.profiles, c.fallback_profile_ids, 0);
}

proof fn lemma_missing_fallbacks(
    profiles: Seq<ProfileView>,
    fallbacks: Seq<Seq<char>>,
    from: int,
)
    requires
        0 <= from,
    ensures
        first_missing(profiles, fallbacks, from) is None <==> forall|i: int|
            from <= i < fallbacks.len() ==> has_profile(profiles, #[trigger] fallbacks[i]),
    decreases fallbacks.len() - from,
{
    if from < fallbacks.len() {
        lemma_missing_fallbacks(profiles, fallbacks, from + 1);
    }
}

/// Only a profile that exists can be made active, and only in a configuration whose profiles
/// and fallbacks are in order.
pub proof fn law_only_known_profiles_are_activated(c: ConfigView, id: Seq<char>)
    ensures
        activate_error(c, id) is None ==> has_profile(c.profiles, id),
        activate_error(c, id) is None ==> active_of(
            ConfigView { active_profile: Some(id), ..c },
        ) is Some && active_of(ConfigView { active_profile: Some(id), ..c })->0.id == id,
        has_profile(c.profiles, id) && save_error(c) is None ==> activate_error(c, id) is None,
{
    law_what_can_be_kept(c);
    law_what_can_be_kept(ConfigView { active_profile: Some(id), ..c });
    law_the_profile_in_use(ConfigView { active_profile: Some(id), ..c });
}

/// What is shown of a profile never depends on what its key is, only on whether it has one.
pub proof fn law_summaries_hide_the_key(p: ProfileView, other: Option<Seq<char>>)
    ensures
        provider::has_key(p.api_key) == provider::has_key(other) ==> summary_of(p) == summary_of(
            ProfileView { api_key: other, ..p },
        ),
        summary_of(p).id == p.id,
        summary_of(p).model == p.model,
        summary_of(p).api_type == p.api_type,
        summary_of(p).base_url == p.base_url,
        !text::blank(p.name) ==> summary_of(p).name == p.name,
        text::blank(p.name) ==> summary_of(p).name == p.id,
        summary_of(p).has_api_key <==> p.api_key is Some && !text::blank(p.api_key->0),
{
}

/// A profile is handed on as the settings of its service, address, model and key, and no
/// other.
pub proof fn law_settings_of_a_profile(p: ProfileView)
    ensures
        profile_settings(p).contains(("API_TYPE"@, provider::api_name(p.api_type))),
        profile_settings(p).contains(("OPENAI_BASE_URL"@, p.base_url)),
        profile_settings(p).contains(("MODEL_NAME"@, p.model)),
        p.api_key is Some ==> profile_settings(p).contains(("OPENAI_API_KEY"@, p.api_key->0)),
        profile_settings(p).len() == if p.api_key is Some {
            4int
        } else {
            3
        },
{
    let s = profile_settings(p);
    assert(s[0] == ("API_TYPE"@, provider::api_name(p.api_type)));
    assert(s[1] == ("OPENAI_BASE_URL"@, p.base_url));
    assert(s[2] == ("MODEL_NAME"@, p.model));
    if p.api_key is Some {
        assert(s[3] == ("OPENAI_API_KEY"@, p.api_key->0));
    }
}

/// Settings are taken over only where the environment has none of the name, and then each as
/// it is and in order.
pub proof fn law_the_environment_wins(
    settings: Seq<(Seq<char>, Seq<char>)>,
    vars: Seq<(String, EnvVar)>,
)
    ensures
        forall|i: int|
            0 <= i < missing_settings(settings, vars).len() ==> settings.contains(
                #[trigger] missing_settings(settings, vars)[i],
            ) && env_at(vars, missing_settings(settings, vars)[i].0) is Missing,
        forall|i: int|
            0 <= i < settings.len() && env_at(vars, (#[trigger] settings[i]).0) is Missing
                ==> missing_settings(settings, vars).contains(settings[i]),
        (forall|i: int|
            0 <= i < settings.len() ==> env_at(vars, (#[trigger] settings[i]).0) is Missing)
            ==> missing_settings(settings, vars) == settings,
    decreases settings.len(),
{
    if settings.len() > 0 {
        let w = settings.drop_last();
        law_the_environment_wins(w, vars);
        let a = missing_settings(settings, vars);
        let b = missing_settings(w, vars);
        assert(settings[settings.len() - 1] == settings.last());
        assert forall|i: int| 0 <= i < a.len() implies settings.contains(#[trigger] a[i]) && env_at(
            vars,
            a[i].0,
        ) is Missing by {
            if i < b.len() {
                assert(a[i] == b[i]);
                let k = choose|k: int| 0 <= k < w.len() && w[k] == b[i];
                assert(settings[k] == a[i]);
            }
        }
        assert forall|i: int|
            0 <= i < settings.len() && env_at(
                vars,
                (#[trigger] settings[i]).0,
            ) is Missing implies a.contains(settings[i]) by {
            if i < w.len() {
                assert(w[i] == settings[i]);
                let k = choose|k: int| 0 <= k < b.len() && b[k] == w[i];
                assert(a[k] == settings[i]);
            } else {
                assert(a[a.len() - 1] == settings[i]);
            }
        }
        if forall|i: int|
            0 <= i < settings.len() ==> env_at(vars, (#[trigger] settings[i]).0) is Missing {
            assert forall|i: int| 0 <= i < w.len() implies env_at(
                vars,
                (#[trigger] w[i]).0,
            ) is Missing by {
                assert(settings[i] == w[i]);
            }
            assert(a =~= settings);
        }
    } else {
        assert(missing_settings(settings, vars) =~= settings);
    }
}

/// A variable is read where its name first stands, and is missing where it stands nowhere.
pub proof fn law_variables_are_read_by_name(vars: Seq<(String, EnvVar)>, name: Seq<char>)
    ensures
        (forall|i: int| 0 <= i < vars.len() ==> (#[trigger] vars[i]).0@ != name) ==> env_at(
            vars,
            name,
        ) is Missing,
        forall|k: int|
            0 <= k < vars.len() && (#[trigger] vars[k]).0@ == name && (forall|j: int|
                0 <= j < k ==> (#[trigger] vars[j]).0@ != name) ==> env_at(vars, name) == vars[k].1,
{
    lemma_env_from(vars, name, 0);
}

proof fn lemma_env_from(vars: Seq<(String, EnvVar)>, name: Seq<char>, from: int)
    requires
        0 <= from,
    ensures
        (forall|i: int| from <= i < vars.len() ==> (#[trigger] vars[i]).0@ != name) ==> env_from(
            vars,
            name,
            from,
        ) is Missing,
        forall|k: int|
            from <= k < vars.len() && (#[trigger] vars[k]).0@ == name && (forall|j: int|
                from <= j < k ==> (#[trigger] vars[j]).0@ != name) ==> env_from(vars, name, from)
                == vars[k].1,
    decreases vars.len() - from,
{
    if from < vars.len() && vars[from].0@ != name {
        lemma_env_from(vars, name, from + 1);
    }
}

/// A setting that is required is in order exactly when it is there and says something; a
/// number when it is not set or lies between its bounds; a switch when it is not set or is
/// one of the words for on and off. What is wrong is told under the name of the setting.
pub proof fn law_settings_are_checked(variable: Seq<char>, value: EnvVar, min: usize, max: usize)
    ensures
        required_issues(variable, value).len() == 0 <==> (value matches EnvVar::Value(s)
            && !text::blank(s@)),
        number_issues(variable, value, min, max).len() == 0 <==> (value matches EnvVar::Value(s)
            ==> text::unsigned_value(s@, usize::MAX as nat) is Some && min
            <= text::unsigned_value(s@, usize::MAX as nat)->0 <= max),
        bool_issues(variable, value).len() == 0 <==> (value matches EnvVar::Value(s) ==> {
            let w = text::lower(text::trim(s@));
            w == "1"@ || w == "true"@ || w == "yes"@ || w == "on"@ || w == "0"@ || w == "false"@
                || w == "no"@ || w == "off"@
        }),
        forall|i: int|
            0 <= i < required_issues(variable, value).len() ==> (#[trigger] required_issues(
                variable,
                value,
            )[i]).variable == variable,
        forall|i: int|
            0 <= i < number_issues(variable, value, min, max).len() ==> (#[trigger] number_issues(
                variable,
                value,
                min,
                max,
            )[i]).variable == variable,
        forall|i: int|
            0 <= i < bool_issues(variable, value).len() ==> (#[trigger] bool_issues(
                variable,
                value,
            )[i]).variable == variable,
{
}

/// The check of an environment finds nothing exactly where each of its parts finds nothing.
pub proof fn law_nothing_is_passed_over(
    vars: Seq<(String, EnvVar)>,
    api_type: Result<ApiType, String>,
)
    requires
        environment_issues(vars, api_type).len() == 0,
    ensures
        api_type is Ok,
        api_type->Ok_0 != ApiType::Ollama ==> (env_at(vars, "OPENAI_API_KEY"@) matches EnvVar::Value(
            s,
        ) && !text::blank(s@)),
        api_type->Ok_0 != ApiType::Ollama ==> env_at(vars, "OPENAI_BASE_URL"@) is Value,
        env_at(vars, "OPENAI_BASE_URL"@) matches EnvVar::Value(s) ==> url_scheme_of(s@) is Ok && (
        url_scheme_of(s@)->Ok_0 == "http"@ || url_scheme_of(s@)->Ok_0 == "https"@),
        env_at(vars, "MODEL_NAME"@) matches EnvVar::Value(s) && !text::blank(s@),
        env_at(vars, "CONTEXT_TOKEN_BUDGET"@) matches EnvVar::Value(s) ==> text::unsigned_value(
            s@,
            usize::MAX as nat,
        ) is Some && text::unsigned_value(s@, usize::MAX as nat)->0 >= 256,
        env_at(vars, "SKILLS_MAX_MATCHES"@) matches EnvVar::Value(s) ==> text::unsigned_value(
            s@,
            usize::MAX as nat,
        ) is Some && 1 <= text::unsigned_value(s@, usize::MAX as nat)->0 <= 64,
        env_at(vars, "CRON_TICK_SECONDS"@) matches EnvVar::Value(s) ==> text::unsigned_value(
            s@,
            usize::MAX as nat,
        ) is Some && text::unsigned_value(s@, usize::MAX as nat)->0 >= 1,
        number_or(env_at(vars, "CONTEXT_MILD_PERCENT"@), 60) < number_or(
            env_at(vars, "CONTEXT_STRONG_PERCENT"@),
            85,
        ),
{
}

/// A path below a directory starts with the directory and ends with the rest, with one slash
/// between them where the directory does not end with one.
pub proof fn law_paths_are_put_together(base: Seq<char>, rest: Seq<char>)
    ensures
        base.is_prefix_of(below(base, rest)),
        rest.is_suffix_of(below(base, rest)),
        base.len() > 0 && base.last() != '/' ==> below(base, rest).len() == base.len() + 1
            + rest.len() && below(base, rest)[base.len() as int] == '/',
        base.len() > 0 && base.last() == '/' ==> below(base, rest).len() == base.len() + rest.len(),
        base.len() == 0 ==> below(base, rest) == rest,
{
    reveal_strlit("/");
    let s = below(base, rest);
    assert(s.subrange(s.len() - rest.len(), s.len() as int) =~= rest);
    assert(s.subrange(0, base.len() as int) =~= base);
    if base.len() == 0 {
        assert(s =~= rest);
    }
}

/// A key is asked for except by a service on this machine; so is an address, which must be
/// one of the web.
pub proof fn law_services_need_key_and_address(
    api_type: Result<ApiType, String>,
    key: EnvVar,
    url: EnvVar,
)
    ensures
        api_issues(api_type).len() == 0 <==> api_type is Ok,
        api_type is Ok && api_type->Ok_0 is Ollama ==> key_issues(api_type, key).len() == 0,
        !(api_type is Ok && api_type->Ok_0 is Ollama) ==> (key_issues(api_type, key).len() == 0 <==> (
        key matches EnvVar::Value(s) && !text::blank(s@))),
        url is Missing ==> (url_issues(chosen(api_type), url).len() == 0 <==> api_type is Ok
            && api_type->Ok_0 is Ollama),
        url matches EnvVar::Value(s) ==> (url_issues(chosen(api_type), url).len() == 0
            <==> !text::blank(s@) && url_scheme_of(s@) is Ok && (url_scheme_of(s@)->Ok_0 == "http"@
            || url_scheme_of(s@)->Ok_0 == "https"@)),
{
}

/// The two shares are in order exactly where the mild one is below the strong one; one that
/// is not set has its default.
pub proof fn law_shares_are_in_order(mild: EnvVar, strong: EnvVar, m: usize, s: usize)
    ensures
        mild is Missing && strong is Missing ==> threshold_issues(mild, strong).len() == 0,
        mild matches EnvVar::Value(a) ==> a@ == text::decimal(m as nat) ==> (
        strong matches EnvVar::Value(b) ==> b@ == text::decimal(s as nat) ==> (threshold_issues(
            mild,
            strong,
        ).len() == 0 <==> m < s)),
{
    text::law_decimals_read_back(m as nat, usize::MAX as nat);
    text::law_decimals_read_back(s as nat, usize::MAX as nat);
}

/// A profile is put in exactly where what is kept of it is usable and the configuration can
/// be kept with it.
pub proof fn law_what_can_be_put_in(c: ConfigView, p: ProfileView, activate: bool)
    ensures
        upsert_error(c, p, activate) is None ==> provider::profile_ok(prepared(c.profiles, p))
            && save_error(upserted(c, p, activate)) is None,
        provider::profile_ok(prepared(c.profiles, p)) && save_error(c) is None ==> upsert_error(
            c,
            p,
            activate,
        ) is None,
        !provider::profile_ok(prepared(c.profiles, p)) ==> upsert_error(c, p, activate) is Some,
{
    if provider::profile_ok(prepared(c.profiles, p)) && save_error(c) is None {
        law_upsert_stays_keepable(c, p, activate);
    }
}

/// Issues are told one to a line, in order, each with its setting and what is wrong.
pub proof fn law_issues_are_told(issues: Seq<IssueView>, i: int)
    requires
        0 <= i < issues.len(),
    ensures
        issue_lines(issues).len() == issues.len(),
        issues[i].variable.is_prefix_of(issue_lines(issues)[i]),
        issues[i].message.is_suffix_of(issue_lines(issues)[i]),
{
    let l = issue_lines(issues)[i];
    let v = issues[i].variable;
    let m = issues[i].message;
    assert(l.subrange(0, v.len() as int) =~= v);
    assert(l.subrange(l.len() - m.len(), l.len() as int) =~= m);
}

/// An identifier keeps its letters and digits, in lower case; a name in letters, digits and
/// inner dashes is its own identifier.
pub proof fn law_identifiers_keep_letters(s: Seq<char>)
    requires
        is_normal_id(s),
    ensures
        normal_id(s) == s,
{
    text::lemma_trim_unchanged(s);
    assert(s.map_values(|c: char| id_char(c)) =~= s);
    text::lemma_trim_char_start_shape(s, '-');
    text::lemma_trim_char_end_shape(s, '-');
}

} // verus!
