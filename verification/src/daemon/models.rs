//! Models: the list of them, and the change from one to another.
use vstd::prelude::*;

use crate::config;
use crate::config::{ConfigFile, ConfigStore, ConfigView, ProfileSummary, SummaryView};
use crate::daemon::chat;
use crate::daemon::chat::Failure;
use crate::daemon::handlers::{INTERNAL_ERROR, INVALID_PARAMS, REQUEST_CONFLICT};
use crate::daemon::DaemonState;
use crate::json;
use crate::json::{Json, JsonView};
use crate::provider;
use crate::provider::{ProfileView, ProviderProfile};
use crate::text;

verus! {

/// What a list of summaries says.
pub open spec fn summary_views(v: Seq<ProfileSummary>) -> Seq<SummaryView> {
    Seq::new(v.len(), |i: int| v[i]@)
}

/// The models that are listed: those of the configuration, else the one in use.
pub open spec fn listed_models(
    profiles: Seq<ProfileView>,
    in_use: Option<ProfileView>,
) -> Seq<SummaryView> {
    if profiles.len() == 0 && in_use is Some {
        seq![config::summary_of(in_use->0)]
    } else {
        Seq::new(profiles.len(), |i: int| config::summary_of(profiles[i]))
    }
}

/// The model that is marked as active: that of the configuration, else the one in use.
pub open spec fn active_model(c: ConfigView, in_use: Option<ProfileView>) -> Option<Seq<char>> {
    match (c.active_profile, in_use) {
        (Some(id), _) => Some(id),
        (None, Some(p)) => Some(p.id),
        (None, None) => None,
    }
}

/// The view of an optional profile.
pub open spec fn opt_profile(p: Option<&ProviderProfile>) -> Option<ProfileView> {
    match p {
        Some(v) => Some(v@),
        None => None,
    }
}

/// Lists the models.
pub fn list_models(config: &ConfigFile, in_use: Option<&ProviderProfile>) -> (r: Vec<
    ProfileSummary,
>)
    ensures
        summary_views(r@) == listed_models(config@.profiles, opt_profile(in_use)),
{
    let mut out: Vec<ProfileSummary> = Vec::new();
    let mut i: usize = 0;
    while i < config.profiles.len()
        invariant
            i <= config.profiles@.len(),
            out@.len() == i,
            forall|k: int|
                0 <= k < i ==> (#[trigger] out@[k])@ == config::summary_of(
                    config.profiles@[k]@,
                ),
        decreases config.profiles@.len() - i,
    {
        out.push(ProfileSummary::from_profile(&config.profiles[i]));
        i = i + 1;
    }
    if out.len() == 0 {
        if let Some(p) = in_use {
            out.push(ProfileSummary::from_profile(p));
        }
    }
    assert(summary_views(out@) =~= listed_models(config@.profiles, opt_profile(in_use)));
    out
}

/// The identifier of the model that is marked as active.
pub fn marked_model(config: &ConfigFile, in_use: Option<&ProviderProfile>) -> (r: Option<String>)
    ensures
        json::opt_text(r) == active_model(config@, opt_profile(in_use)),
{
    match (&config.active_profile, in_use) {
        (Some(id), _) => Some(id.clone()),
        (None, Some(p)) => Some(p.id.clone()),
        (None, None) => None,
    }
}

/// The document of a summary.
pub open spec fn summary_json(s: SummaryView) -> JsonView {
    JsonView::Object(
        seq![
            ("id"@, JsonView::Str(s.id)),
            ("name"@, JsonView::Str(s.name)),
            ("api_type"@, JsonView::Str(provider::api_name(s.api_type))),
            ("base_url"@, JsonView::Str(s.base_url)),
            ("model"@, JsonView::Str(s.model)),
            ("has_api_key"@, JsonView::Bool(s.has_api_key)),
        ],
    )
}

/// Writes a summary as a document.
pub fn summary_to_json(s: &ProfileSummary) -> (r: Json)
    ensures
        r@ == summary_json(s@),
{
    let mut f = json::no_fields();
    json::put(&mut f, "id", Json::Str(s.id.clone()));
    json::put(&mut f, "name", Json::Str(s.name.clone()));
    json::put(&mut f, "api_type", Json::of_str(s.api_type.as_str()));
    json::put(&mut f, "base_url", Json::Str(s.base_url.clone()));
    json::put(&mut f, "model", Json::Str(s.model.clone()));
    json::put(&mut f, "has_api_key", Json::Bool(s.has_api_key));
    assert(json::fields_view(f@) =~= summary_json(s@)->Object_0);
    json::object(f)
}

/// The document of a way to reach models.
pub open spec fn provider_json(api_type: Seq<char>, label: Seq<char>) -> JsonView {
    JsonView::Object(
        seq![("api_type"@, JsonView::Str(api_type)), ("label"@, JsonView::Str(label))],
    )
}

/// The ways to reach models.
pub open spec fn providers_json() -> Seq<JsonView> {
    seq![
        provider_json("openai-chat"@, "OpenAI 兼容"@),
        provider_json("anthropic-messages"@, "Anthropic Messages"@),
        provider_json("ollama"@, "Ollama 本地模型"@),
    ]
}

fn provider_to_json(api_type: &str, label: &str) -> (r: Json)
    ensures
        r@ == provider_json(api_type@, label@),
{
    let mut f = json::no_fields();
    json::put(&mut f, "api_type", Json::of_str(api_type));
    json::put(&mut f, "label", Json::of_str(label));
    assert(json::fields_view(f@) =~= provider_json(api_type@, label@)->Object_0);
    json::object(f)
}

/// The list of the models.
pub open spec fn models_json(c: ConfigView, in_use: Option<ProfileView>, path: Seq<char>) -> JsonView {
    let listed = listed_models(c.profiles, in_use);
    JsonView::Object(
        seq![
            ("active_id"@, crate::daemon::handlers::or_null(active_model(c, in_use))),
            (
                "profiles"@,
                JsonView::Array(Seq::new(listed.len(), |i: int| summary_json(listed[i]))),
            ),
            ("config_path"@, JsonView::Str(path)),
            ("providers"@, JsonView::Array(providers_json())),
        ],
    )
}

/// A text after another.
fn two(a: &str, b: &str) -> (r: String)
    ensures
        r@ == a@ + b@,
{
    let mut r = a.to_owned();
    r.append(b);
    r
}

/// Writes the list of the models.
pub fn models_document(
    config: &ConfigFile,
    in_use: Option<&ProviderProfile>,
    store: &ConfigStore,
) -> (r: Json)
    ensures
        r@ == models_json(config@, opt_profile(in_use), store.path@),
{
    let listed = list_models(config, in_use);
    let ghost views = summary_views(listed@);
    let mut items: Vec<Json> = Vec::new();
    let mut i: usize = 0;
    while i < listed.len()
        invariant
            i <= listed@.len(),
            items@.len() == i,
            forall|k: int| 0 <= k < i ==> (#[trigger] items@[k])@ == summary_json(listed@[k]@),
        decreases listed@.len() - i,
    {
        items.push(summary_to_json(&listed[i]));
        i = i + 1;
    }
    assert(json::list_view(items@) =~= Seq::new(views.len(), |i: int| summary_json(views[i])));
    let mut providers: Vec<Json> = Vec::new();
    providers.push(provider_to_json("openai-chat", "OpenAI 兼容"));
    providers.push(provider_to_json("anthropic-messages", "Anthropic Messages"));
    providers.push(provider_to_json("ollama", "Ollama 本地模型"));
    assert(json::list_view(providers@) =~= providers_json());
    let active = match marked_model(config, in_use) {
        Some(id) => Json::Str(id),
        None => Json::Null,
    };
    let mut f = json::no_fields();
    json::put(&mut f, "active_id", active);
    json::put(&mut f, "profiles", json::array(items));
    json::put(&mut f, "config_path", Json::of_str(store.path()));
    json::put(&mut f, "providers", json::array(providers));
    assert(json::fields_view(f@) =~= models_json(
        config@,
        opt_profile(in_use),
        store.path@,
    )->Object_0);
    json::object(f)
}

/// Answers with the list of the models. `in_use` is the model in use, where models are
/// managed.
pub fn models_list(
    config: &Result<ConfigFile, String>,
    in_use: Option<&ProviderProfile>,
    store: &ConfigStore,
) -> (r: Result<Json, Failure>)
    ensures
        match *config {
            Err(e) => chat::fails(r, INTERNAL_ERROR, "读取模型配置失败："@ + e@),
            Ok(c) => r is Ok && r->Ok_0@ == models_json(c@, opt_profile(in_use), store.path@),
        },
{
    match config {
        Err(e) => Err((INTERNAL_ERROR, two("读取模型配置失败：", e.as_str()))),
        Ok(c) => Ok(models_document(c, in_use, store)),
    }
}

/// A change of the model that was written down: the model to load, and the configuration to
/// keep.
#[derive(Debug)]
pub struct ModelChange {
    pub profile: ProviderProfile,
    pub config: ConfigFile,
}

impl DaemonState {
    /// Changes to a model that is configured. That has to wait while a turn runs, and needs
    /// models to be managed.
    pub fn models_use(
        &self,
        managed: bool,
        config: Result<ConfigFile, String>,
        profile_id: &str,
    ) -> (r: Result<ModelChange, Failure>)
        ensures
            if self.active.keys().len() > 0 {
                chat::fails(
                    r,
                    REQUEST_CONFLICT,
                    "当前仍有 Agent 任务运行，请等待完成或取消后再切换模型"@,
                )
            } else if !managed {
                chat::fails(r, INTERNAL_ERROR, "当前 daemon 未启用模型配置管理"@)
            } else {
                match config {
                    Err(e) => chat::fails(r, INVALID_PARAMS, "切换模型失败："@ + e@),
                    Ok(c) => match config::activate_error(c@, profile_id@) {
                        Some(e) => chat::fails(r, INVALID_PARAMS, "切换模型失败："@ + e),
                        None => r is Ok && r->Ok_0.profile@
                            == c@.profiles[config::profile_index(c@.profiles, profile_id@, 0)]
                            && r->Ok_0.config@ == (ConfigView {
                            active_profile: Some(profile_id@),
                            ..c@
                        }),
                    },
                }
            },
    {
        if self.has_active_turns() {
            return Err(
                (
                    REQUEST_CONFLICT,
                    "当前仍有 Agent 任务运行，请等待完成或取消后再切换模型".to_owned(),
                ),
            );
        }
        if !managed {
            return Err((INTERNAL_ERROR, "当前 daemon 未启用模型配置管理".to_owned()));
        }
        match config {
            Err(e) => Err((INVALID_PARAMS, two("切换模型失败：", e.as_str()))),
            Ok(c) => match self.config_store.activate(c, profile_id) {
                Ok((profile, config)) => Ok(ModelChange { profile, config }),
                Err(e) => Err((INVALID_PARAMS, two("切换模型失败：", e.as_str()))),
            },
        }
    }

    /// Keeps a model and gives the one that is active then. That has to wait while a turn
    /// runs, and needs models to be managed.
    pub fn models_save(
        &self,
        managed: bool,
        config: Result<ConfigFile, String>,
        profile: ProviderProfile,
        activate: bool,
    ) -> (r: Result<ModelChange, Failure>)
        ensures
            if self.active.keys().len() > 0 {
                chat::fails(
                    r,
                    REQUEST_CONFLICT,
                    "当前仍有 Agent 任务运行，请等待完成或取消后再保存模型配置"@,
                )
            } else if !managed {
                chat::fails(r, INTERNAL_ERROR, "当前 daemon 未启用模型配置管理"@)
            } else {
                match config {
                    Err(e) => chat::fails(r, INVALID_PARAMS, "保存模型配置失败："@ + e@),
                    Ok(c) => match config::upsert_error(c@, profile@, activate) {
                        Some(e) => chat::fails(r, INVALID_PARAMS, "保存模型配置失败："@ + e),
                        None => {
                            let after = config::upserted(c@, profile@, activate);
                            &&& r is Ok
                            &&& r->Ok_0.config@ == after
                            &&& after.active_profile is Some
                            &&& r->Ok_0.profile@ == after.profiles[config::profile_index(
                                after.profiles,
                                after.active_profile->0,
                                0,
                            )]
                        },
                    },
                }
            },
    {
        if self.has_active_turns() {
            return Err(
                (
                    REQUEST_CONFLICT,
                    "当前仍有 Agent 任务运行，请等待完成或取消后再保存模型配置".to_owned(),
                ),
            );
        }
        if !managed {
            return Err((INTERNAL_ERROR, "当前 daemon 未启用模型配置管理".to_owned()));
        }
        let config = match config {
            Err(e) => return Err((INVALID_PARAMS, two("保存模型配置失败：", e.as_str()))),
            Ok(c) => c,
        };
        let config = match self.config_store.upsert(config, profile, activate) {
            Err(e) => return Err((INVALID_PARAMS, two("保存模型配置失败：", e.as_str()))),
            Ok(c) => c,
        };
        let found = match &config.active_profile {
            None => return Err((INTERNAL_ERROR, "保存后没有活动模型配置".to_owned())),
            Some(id) => config::find_profile(&config.profiles, id.as_str()),
        };
        match found {
            None => Err((INTERNAL_ERROR, "活动模型配置不存在".to_owned())),
            Some(i) => {
                let profile = config.profiles[i].clone();
                Ok(ModelChange { profile, config })
            },
        }
    }
}

/// The reply once the model is loaded, or was not.
pub fn model_loaded(profile: &ProviderProfile, loaded: Result<(), String>) -> (r: Result<
    Json,
    Failure,
>)
    ensures
        match loaded {
            Err(e) => chat::fails(r, INVALID_PARAMS, "加载模型失败："@ + e@),
            Ok(()) => r is Ok && r->Ok_0@ == JsonView::Object(
                seq![
                    ("changed"@, JsonView::Bool(true)),
                    ("active_id"@, JsonView::Str(profile@.id)),
                    ("profile"@, summary_json(config::summary_of(profile@))),
                ],
            ),
        },
{
    match loaded {
        Err(e) => Err((INVALID_PARAMS, two("加载模型失败：", e.as_str()))),
        Ok(()) => {
            let summary = ProfileSummary::from_profile(profile);
            let mut f = json::no_fields();
            json::put(&mut f, "changed", Json::Bool(true));
            json::put(&mut f, "active_id", Json::Str(profile.id.clone()));
            json::put(&mut f, "profile", summary_to_json(&summary));
            assert(json::fields_view(f@) =~= seq![
                ("changed"@, JsonView::Bool(true)),
                ("active_id"@, JsonView::Str(profile@.id)),
                ("profile"@, summary_json(config::summary_of(profile@))),
            ]);
            Ok(json::object(f))
        },
    }
}

/// One line of the list of models.
pub open spec fn model_line(number: nat, s: SummaryView, active_id: Seq<char>) -> Seq<char> {
    (if s.id == active_id {
        "*"@
    } else {
        " "@
    }) + " "@ + text::decimal(number) + ". "@ + s.name + " · "@ + provider::api_name(s.api_type)
        + " · "@ + s.model + " · id="@ + s.id
}

/// The list of models as text.
pub open spec fn models_text(
    active: Option<Seq<char>>,
    listed: Seq<SummaryView>,
    path: Seq<char>,
) -> Seq<char> {
    let id = match active {
        Some(id) => id,
        None => "未设置"@,
    };
    if listed.len() == 0 {
        "暂无模型配置。请在 Web 设置中添加模型，或设置环境变量后重启 daemon。配置文件："@ + path
    } else {
        "当前模型："@ + id + "\n"@ + text::join(
            Seq::new(listed.len(), |i: int| model_line((i + 1) as nat, listed[i], id)),
            "\n"@,
        ) + "\n切换用法：/models <编号或 ID>"@
    }
}

/// The model that a command names: the one with the number, counted from one, or the one with
/// the identifier; none where the number is too high.
pub open spec fn named_model(selection: Seq<char>, listed: Seq<SummaryView>) -> Option<Seq<char>> {
    match text::unsigned_value(selection, usize::MAX as nat) {
        Some(n) => if n == 0 {
            Some(selection)
        } else if n <= listed.len() {
            Some(listed[n - 1].id)
        } else {
            None
        },
        None => Some(selection),
    }
}

/// What the command for models asks for.
#[derive(Debug)]
pub enum ModelsStep {
    /// Answer with the text.
    Say(String),
    /// Change to the model.
    Use(String),
}

/// Decides what the command for models asks for.
pub fn execute_models_command(
    args: &Vec<String>,
    config: &Result<ConfigFile, String>,
    in_use: Option<&ProviderProfile>,
    store: &ConfigStore,
) -> (r: ModelsStep)
    ensures
        match *config {
            Err(e) => r matches ModelsStep::Say(t) && t@ == "读取模型配置失败："@ + e@,
            Ok(c) => {
                let listed = listed_models(c@.profiles, opt_profile(in_use));
                if args@.len() == 0 {
                    r matches ModelsStep::Say(t) && t@ == models_text(
                        active_model(c@, opt_profile(in_use)),
                        listed,
                        store.path@,
                    )
                } else {
                    match named_model(args@[0]@, listed) {
                        Some(id) => r matches ModelsStep::Use(m) && m@ == id,
                        None => r matches ModelsStep::Say(t) && t@ == "模型编号超出范围："@
                            + args@[0]@,
                    }
                }
            },
        },
{
    let config = match config {
        Err(e) => return ModelsStep::Say(two("读取模型配置失败：", e.as_str())),
        Ok(c) => c,
    };
    let listed = list_models(config, in_use);
    let ghost views = summary_views(listed@);
    if args.len() == 0 {
        if listed.len() == 0 {
            return ModelsStep::Say(
                two(
                    "暂无模型配置。请在 Web 设置中添加模型，或设置环境变量后重启 daemon。配置文件：",
                    store.path(),
                ),
            );
        }
        let active = match marked_model(config, in_use) {
            Some(id) => id,
            None => "未设置".to_owned(),
        };
        let mut lines: Vec<String> = Vec::new();
        let mut i: usize = 0;
        while i < listed.len()
            invariant
                i <= listed@.len(),
                views == summary_views(listed@),
                lines@.len() == i,
                forall|k: int|
                    0 <= k < i ==> (#[trigger] lines@[k])@ == model_line(
                        (k + 1) as nat,
                        views[k],
                        active@,
                    ),
            decreases listed@.len() - i,
        {
            let s = &listed[i];
            assert(views[i as int] == s@);
            let mut line = if text::same(s.id.as_str(), active.as_str()) {
                "*".to_owned()
            } else {
                " ".to_owned()
            };
            line.append(" ");
            line.append(text::decimal_text(i as u64 + 1).as_str());
            line.append(". ");
            line.append(s.name.as_str());
            line.append(" · ");
            line.append(s.api_type.as_str());
            line.append(" · ");
            line.append(s.model.as_str());
            line.append(" · id=");
            line.append(s.id.as_str());
            lines.push(line);
            i = i + 1;
        }
        assert(text::views(lines@) =~= Seq::new(
            views.len(),
            |i: int| model_line((i + 1) as nat, views[i], active@),
        ));
        let mut t = two("当前模型：", active.as_str());
        t.append("\n");
        t.append(text::join_texts(&lines, "\n").as_str());
        t.append("\n切换用法：/models <编号或 ID>");
        return ModelsStep::Say(t);
    }
    let selection = args[0].as_str();
    match text::parse_unsigned(selection, usize::MAX as u64) {
        Some(n) => if n == 0 {
            ModelsStep::Use(selection.to_owned())
        } else {
            let at: usize = n as usize - 1;
            if at < listed.len() {
                assert(views[at as int] == listed@[at as int]@);
                ModelsStep::Use(listed[at].id.clone())
            } else {
                ModelsStep::Say(two("模型编号超出范围：", selection))
            }
        },
        None => ModelsStep::Use(selection.to_owned()),
    }
}

/// The answer once the model of the command is in use, or why it is not.
pub fn models_command_done(changed: Result<&ProviderProfile, &str>) -> (r: String)
    ensures
        r@ == (match changed {
            Ok(p) => "已切换模型："@ + config::summary_of(p@).name + " · "@ + p@.model,
            Err(m) => m@,
        }),
{
    match changed {
        Ok(p) => {
            let s = ProfileSummary::from_profile(p);
            let mut t = two("已切换模型：", s.name.as_str());
            t.append(" · ");
            t.append(s.model.as_str());
            t
        },
        Err(m) => m.to_owned(),
    }
}

/// Reading back: the document of a summary, field by field.
pub proof fn law_summary_reads_back(s: SummaryView)
    ensures
        json::at_key(summary_json(s), "id"@) == JsonView::Str(s.id),
        json::at_key(summary_json(s), "name"@) == JsonView::Str(s.name),
        json::at_key(summary_json(s), "api_type"@) == JsonView::Str(provider::api_name(s.api_type)),
        json::at_key(summary_json(s), "base_url"@) == JsonView::Str(s.base_url),
        json::at_key(summary_json(s), "model"@) == JsonView::Str(s.model),
        json::at_key(summary_json(s), "has_api_key"@) == JsonView::Bool(s.has_api_key),
{
    reveal_strlit("api_type");
    reveal_strlit("base_url");
    reveal_strlit("has_api_key");
    reveal_strlit("id");
    reveal_strlit("model");
    reveal_strlit("name");
    assert("id"@.len() != "name"@.len());
    assert("id"@.len() != "api_type"@.len());
    assert("name"@.len() != "api_type"@.len());
    assert("id"@.len() != "base_url"@.len());
    assert("name"@.len() != "base_url"@.len());
    assert("api_type"@[0] != "base_url"@[0]);
    assert("id"@.len() != "model"@.len());
    assert("name"@.len() != "model"@.len());
    assert("api_type"@.len() != "model"@.len());
    assert("base_url"@.len() != "model"@.len());
    assert("id"@.len() != "has_api_key"@.len());
    assert("name"@.len() != "has_api_key"@.len());
    assert("api_type"@.len() != "has_api_key"@.len());
    assert("base_url"@.len() != "has_api_key"@.len());
    assert("model"@.len() != "has_api_key"@.len());
    json::lemma_field_at(summary_json(s), "id"@, 0);
    json::lemma_field_at(summary_json(s), "name"@, 1);
    json::lemma_field_at(summary_json(s), "api_type"@, 2);
    json::lemma_field_at(summary_json(s), "base_url"@, 3);
    json::lemma_field_at(summary_json(s), "model"@, 4);
    json::lemma_field_at(summary_json(s), "has_api_key"@, 5);
}

/// Reading back: the document of a way to reach models, field by field.
pub proof fn law_provider_reads_back(api_type: Seq<char>, label: Seq<char>)
    ensures
        json::at_key(provider_json(api_type, label), "api_type"@) == JsonView::Str(api_type),
        json::at_key(provider_json(api_type, label), "label"@) == JsonView::Str(label),
{
    reveal_strlit("api_type");
    reveal_strlit("label");
    assert("api_type"@.len() != "label"@.len());
    json::lemma_field_at(provider_json(api_type, label), "api_type"@, 0);
    json::lemma_field_at(provider_json(api_type, label), "label"@, 1);
}

/// The models that are listed are the profiles, in their order; without any, the one in use.
pub proof fn law_listed_models(profiles: Seq<ProfileView>, in_use: Option<ProfileView>)
    ensures
        profiles.len() > 0 ==> listed_models(profiles, in_use).len() == profiles.len(),
        profiles.len() == 0 && in_use is None ==> listed_models(profiles, in_use).len() == 0,
        profiles.len() == 0 && in_use is Some ==> listed_models(profiles, in_use).len() == 1
            && listed_models(profiles, in_use)[0].id == in_use->0.id,
        forall|i: int|
            0 <= i < profiles.len() ==> (#[trigger] listed_models(profiles, in_use)[i]).id
                == profiles[i].id && listed_models(profiles, in_use)[i].model == profiles[i].model,
{
}

/// The model that is told as active is the one that was chosen; without a choice the one in
/// use.
pub proof fn law_the_active_model(c: ConfigView, in_use: Option<ProfileView>)
    ensures
        c.active_profile is Some ==> active_model(c, in_use) == c.active_profile,
        c.active_profile is None && in_use is Some ==> active_model(c, in_use) == Some(
            in_use->0.id,
        ),
        active_model(c, in_use) is None <==> c.active_profile is None && in_use is None,
{
}

/// The list of models tells the active one, every profile in order without its key, and where
/// the configuration is kept.
pub proof fn law_models_read_back(c: ConfigView, in_use: Option<ProfileView>, path: Seq<char>, i: int)
    ensures
        ({
            let j = models_json(c, in_use, path);
            &&& json::at_key(j, "active_id"@) == (match active_model(c, in_use) {
                Some(id) => JsonView::Str(id),
                None => JsonView::Null,
            })
            &&& json::at_key(j, "config_path"@) == JsonView::Str(path)
            &&& json::at_key(j, "profiles"@) is Array
            &&& json::at_key(j, "profiles"@)->Array_0.len() == listed_models(
                c.profiles,
                in_use,
            ).len()
            &&& 0 <= i < c.profiles.len() ==> json::at_key(
                json::at_key(j, "profiles"@)->Array_0[i],
                "id"@,
            ) == JsonView::Str(c.profiles[i].id) && json::at_key(
                json::at_key(j, "profiles"@)->Array_0[i],
                "model"@,
            ) == JsonView::Str(c.profiles[i].model) && json::at_key(
                json::at_key(j, "profiles"@)->Array_0[i],
                "has_api_key"@,
            ) == JsonView::Bool(provider::has_key(c.profiles[i].api_key))
            &&& json::at_key(j, "providers"@) == JsonView::Array(providers_json())
        }),
{
    reveal_strlit("active_id");
    reveal_strlit("profiles");
    reveal_strlit("config_path");
    reveal_strlit("providers");
    assert("active_id"@.len() == 9 && "profiles"@.len() == 8 && "config_path"@.len() == 11
        && "providers"@.len() == 9);
    assert("active_id"@[0] != "providers"@[0]);
    let j = models_json(c, in_use, path);
    json::lemma_field_at(j, "active_id"@, 0);
    json::lemma_field_at(j, "profiles"@, 1);
    json::lemma_field_at(j, "config_path"@, 2);
    json::lemma_field_at(j, "providers"@, 3);
    if 0 <= i < c.profiles.len() {
        law_summary_reads_back(config::summary_of(c.profiles[i]));
    }
}

/// A model is chosen by the number it is listed under, or by its identifier; a number beyond
/// the list chooses none.
pub proof fn law_models_are_chosen_by_number_or_id(
    selection: Seq<char>,
    listed: Seq<SummaryView>,
    n: nat,
)
    ensures
        1 <= n <= listed.len() && n <= usize::MAX ==> named_model(text::decimal(n), listed) == Some(
            listed[n - 1].id,
        ),
        n > listed.len() && n <= usize::MAX ==> named_model(text::decimal(n), listed) is None || n
            == 0,
        text::unsigned_value(selection, usize::MAX as nat) is None ==> named_model(
            selection,
            listed,
        ) == Some(selection),
{
    if n <= usize::MAX {
        text::law_decimals_read_back(n, usize::MAX as nat);
    }
}

/// The line of a model starts with the mark exactly where it is the active one, and tells its
/// number, name, service, model and identifier.
pub proof fn law_the_active_model_is_marked(number: nat, s: SummaryView, active_id: Seq<char>)
    ensures
        model_line(number, s, active_id)[0] == '*' <==> s.id == active_id,
        s.id.is_suffix_of(model_line(number, s, active_id)),
        text::has_text(model_line(number, s, active_id), s.name),
        text::has_text(model_line(number, s, active_id), s.model),
        text::has_text(model_line(number, s, active_id), text::decimal(number)),
{
    reveal_strlit("*");
    reveal_strlit(" ");
    reveal_strlit(". ");
    reveal_strlit(" · ");
    reveal_strlit(" · id=");
    let l = model_line(number, s, active_id);
    let d = text::decimal(number);
    let a = provider::api_name(s.api_type);
    assert(l[0] == if s.id == active_id {
        '*'
    } else {
        ' '
    });
    assert(l.subrange(l.len() - s.id.len(), l.len() as int) =~= s.id);
    assert(l.subrange(2, 2 + d.len() as int) =~= d);
    assert(text::occurs_at(l, d, 2));
    let at: int = 4 + d.len() as int;
    assert(l.subrange(at, at + s.name.len()) =~= s.name);
    assert(text::occurs_at(l, s.name, at));
    let m: int = at + s.name.len() + 3 + a.len() + 3;
    assert(l.subrange(m, m + s.model.len()) =~= s.model);
    assert(text::occurs_at(l, s.model, m));
}

/// The text of the models tells the active one and each of those listed, one to a line and in
/// order; without any it tells where they would be kept.
pub proof fn law_models_are_told(
    active: Option<Seq<char>>,
    listed: Seq<SummaryView>,
    path: Seq<char>,
)
    ensures
        listed.len() == 0 ==> path.is_suffix_of(models_text(active, listed, path)),
        listed.len() > 0 && active is Some ==> text::has_text(
            models_text(active, listed, path),
            active->0,
        ),
        listed.len() > 0 ==> text::has_text(
            models_text(active, listed, path),
            text::join(
                Seq::new(
                    listed.len(),
                    |i: int|
                        model_line(
                            (i + 1) as nat,
                            listed[i],
                            match active {
                                Some(id) => id,
                                None => "未设置"@,
                            },
                        ),
                ),
                "\n"@,
            ),
        ),
{
    let t = models_text(active, listed, path);
    let id = match active {
        Some(id) => id,
        None => "未设置"@,
    };
    if listed.len() == 0 {
        assert(t.subrange(t.len() - path.len(), t.len() as int) =~= path);
    } else {
        let lines = text::join(
            Seq::new(listed.len(), |i: int| model_line((i + 1) as nat, listed[i], id)),
            "\n"@,
        );
        assert(Seq::new(listed.len(), |i: int| model_line((i + 1) as nat, listed[i], id))
            =~= Seq::new(
            listed.len(),
            |i: int|
                model_line(
                    (i + 1) as nat,
                    listed[i],
                    match active {
                        Some(id) => id,
                        None => "未设置"@,
                    },
                ),
        ));
        let a = "当前模型："@.len() as int;
        assert(t.subrange(a, a + id.len()) =~= id);
        assert(text::occurs_at(t, id, a));
        let b = a + id.len() + "\n"@.len();
        assert(t.subrange(b, b + lines.len()) =~= lines);
        assert(text::occurs_at(t, lines, b));
    }
}

} // verus!
