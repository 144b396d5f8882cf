//! What the daemon starts with.
use vstd::prelude::*;

use crate::config;
use crate::config::EnvVar;
use crate::daemon::protocol;
use crate::daemon::protocol::{JsonRpcRequest, RequestId, RequestIdView, RequestView};
use crate::json;
use crate::json::{Json, JsonView};
use crate::provider::ProviderProfile;
use crate::text;

verus! {

/// A number from the environment, or the default where none is written there.
pub open spec fn number_setting(value: EnvVar, default: u64) -> u64 {
    match value {
        EnvVar::Value(s) => match text::unsigned_value(s@, u64::MAX as nat) {
            Some(n) => n as u64,
            None => default,
        },
        _ => default,
    }
}

/// Reads a number from the environment.
pub fn env_u64(value: &EnvVar, default: u64) -> (r: u64)
    ensures
        r == number_setting(*value, default),
{
    match value {
        EnvVar::Value(s) => match text::parse_unsigned(s.as_str(), u64::MAX) {
            Some(n) => n,
            None => default,
        },
        _ => default,
    }
}

/// A truth value from the environment, or the default where nothing is written there.
pub open spec fn bool_setting(value: EnvVar, default: bool) -> bool {
    match value {
        EnvVar::Value(s) => config::is_true_word(text::lower(text::trim(s@))),
        _ => default,
    }
}

/// Reads a truth value from the environment.
pub fn env_bool(value: &EnvVar, default: bool) -> (r: bool)
    ensures
        r == bool_setting(*value, default),
{
    match value {
        EnvVar::Value(s) => {
            let word = text::lower_text(text::trim_text(s.as_str()).as_str());
            config::says_true(word.as_str())
        },
        _ => default,
    }
}

/// How the scheduler is set, in seconds.
#[derive(Clone, Copy, Debug, PartialEq, Eq, Structural)]
pub struct SchedulerSettings {
    pub tick: u64,
    pub stagger: u64,
    pub heartbeat: Option<u64>,
}

/// How the scheduler is set by the environment.
pub fn scheduler_settings(
    heartbeat_enabled: &EnvVar,
    heartbeat_interval: &EnvVar,
    tick: &EnvVar,
    stagger: &EnvVar,
) -> (r: SchedulerSettings)
    ensures
        r.tick == (if number_setting(*tick, 1) == 0 {
            1
        } else {
            number_setting(*tick, 1)
        }),
        r.stagger == number_setting(*stagger, 2),
        r.heartbeat == (if bool_setting(*heartbeat_enabled, false) {
            Some(number_setting(*heartbeat_interval, 300))
        } else {
            None
        }),
{
    let seconds: u64 = env_u64(tick, 1);
    SchedulerSettings {
        tick: if seconds == 0 {
            1
        } else {
            seconds
        },
        stagger: env_u64(stagger, 2),
        heartbeat: if env_bool(heartbeat_enabled, false) {
            Some(env_u64(heartbeat_interval, 300))
        } else {
            None
        },
    }
}

/// The model that the daemon starts with: the configured one, else that of the environment.
pub fn startup_profile(
    active: Option<ProviderProfile>,
    from_env: Option<ProviderProfile>,
) -> (r: Result<ProviderProfile, String>)
    ensures
        match (active, from_env) {
            (Some(p), _) => r is Ok && r->Ok_0@ == p@,
            (None, Some(p)) => r is Ok && r->Ok_0@ == p@,
            (None, None) => r is Err && r->Err_0@
                == "没有可用的模型配置；请运行 `myagent config check` 或先在 Web 设置中保存模型"@,
        },
{
    match (active, from_env) {
        (Some(p), _) => Ok(p),
        (None, Some(p)) => Ok(p),
        (None, None) => Err(
            "没有可用的模型配置；请运行 `myagent config check` 或先在 Web 设置中保存模型".to_owned(),
        ),
    }
}

/// The request that takes up a message which still waited when the daemon ended.
pub open spec fn recovered_request(
    request_id: RequestIdView,
    session_id: Seq<char>,
    message: Seq<char>,
) -> RequestView {
    RequestView {
        jsonrpc: protocol::JSONRPC_VERSION@,
        id: request_id,
        method: "chat.send"@,
        params: JsonView::Object(
            seq![
                ("session_id"@, JsonView::Str(session_id)),
                ("message"@, JsonView::Str(message)),
            ],
        ),
    }
}

/// Takes up a message that still waited when the daemon ended; a run without its message is
/// an error.
pub fn recover_queued(
    run_id: &str,
    request_id: RequestId,
    session_id: &str,
    message: Option<String>,
) -> (r: Result<JsonRpcRequest, String>)
    ensures
        match message {
            Some(m) => r is Ok && r->Ok_0@ == recovered_request(request_id@, session_id@, m@),
            None => r is Err && r->Err_0@ == "queued run "@ + run_id@ + " 缺少队列项"@,
        },
{
    match message {
        Some(m) => {
            let ghost text = m@;
            let mut f = json::no_fields();
            json::put(&mut f, "session_id", Json::of_str(session_id));
            json::put(&mut f, "message", Json::Str(m));
            assert(json::fields_view(f@) =~= recovered_request(
                request_id@,
                session_id@,
                text,
            ).params->Object_0);
            Ok(JsonRpcRequest::new(request_id, "chat.send", json::object(f)))
        },
        None => {
            let mut e = "queued run ".to_owned();
            e.append(run_id);
            e.append(" 缺少队列项");
            Err(e)
        },
    }
}

/// A number that is set is taken, and else the default; a switch that is set is on exactly
/// for a word that means on.
pub proof fn law_settings_or_defaults(value: EnvVar, default: u64, on: bool, n: u64)
    ensures
        !(value is Value) ==> number_setting(value, default) == default,
        value matches EnvVar::Value(s) ==> s@ == text::decimal(n as nat) ==> number_setting(
            value,
            default,
        ) == n,
        !(value is Value) ==> bool_setting(value, on) == on,
        value matches EnvVar::Value(s) ==> (bool_setting(value, on) <==> {
            let w = text::lower(text::trim(s@));
            w == "1"@ || w == "true"@ || w == "yes"@ || w == "on"@
        }),
{
    text::law_decimals_read_back(n as nat, u64::MAX as nat);
}

/// A message that is taken up again is sent as it was: under the same request, in the same
/// session, with the same text.
pub proof fn law_messages_are_taken_up_again(
    request_id: RequestIdView,
    session_id: Seq<char>,
    message: Seq<char>,
)
    ensures
        recovered_request(request_id, session_id, message).id == request_id,
        recovered_request(request_id, session_id, message).method == "chat.send"@,
        json::at_key(
            recovered_request(request_id, session_id, message).params,
            "session_id"@,
        ) == JsonView::Str(session_id),
        json::at_key(recovered_request(request_id, session_id, message).params, "message"@)
            == JsonView::Str(message),
{
    reveal_strlit("session_id");
    reveal_strlit("message");
    assert("session_id"@.len() != "message"@.len());
    let p = recovered_request(request_id, session_id, message).params;
    json::lemma_field_at(p, "session_id"@, 0);
    json::lemma_field_at(p, "message"@, 1);
}

} // verus!
