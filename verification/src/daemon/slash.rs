//! Command lines: what each one asks for, and the text that answers it.
use vstd::prelude::*;

use crate::daemon::chat;
use crate::daemon::chat::{Failure, RunRecord, RunView};
use crate::daemon::handlers::{INTERNAL_ERROR, INVALID_PARAMS};
use crate::daemon::sessions;
use crate::daemon::sessions::{SessionInfo, SessionInfoView};
use crate::json;
use crate::json::{Json, JsonView};
use crate::text;

verus! {

/// The commands.
#[derive(Clone, Copy, Debug, PartialEq, Eq, Structural)]
pub enum SlashAction {
    Help,
    Status,
    Run,
    Sessions,
    Resume,
    New,
    Cancel,
    Skill,
    Cron,
    Mcp,
    Permissions,
    Models,
    Ping,
    Dogfood,
    Web,
    Exit,
}

/// A command with its arguments.
#[derive(Debug)]
pub struct SlashInvocation {
    pub action: SlashAction,
    pub args: Vec<String>,
}

/// What a line was read as.
#[derive(Debug)]
pub enum SlashParse {
    NotCommand,
    Error(String),
    Command(SlashInvocation),
}

/// The answer to a command.
#[derive(Debug)]
pub enum SlashResponse {
    Text { content: String },
    Sessions { sessions: Vec<SessionInfo>, select: bool },
    SessionChanged { message: String, snapshot: Json },
    Exit,
}

/// What is done for a line.
#[derive(Debug)]
pub enum SlashStep {
    /// Answer at once.
    Respond(SlashResponse),
    /// Give the help.
    Help,
    /// Tell how the session stands.
    Status,
    /// Tell about the run.
    Run(String),
    /// List all sessions.
    ListSessions,
    /// List the sessions that can be taken up again.
    ChooseSession,
    /// Take a session up again, by number or identifier.
    Resume(String),
    /// Open a session.
    NewSession,
    Skill(Vec<String>),
    Cron(Vec<String>),
    Mcp(Vec<String>),
    Permissions(Vec<String>),
    Models(Vec<String>),
    /// Export what is known of the session.
    Dogfood,
}

/// The step answers with the text.
pub open spec fn answers_with(r: SlashStep, content: Seq<char>) -> bool {
    r matches SlashStep::Respond(SlashResponse::Text { content: c }) && c@ == content
}

/// What is done for a command.
pub open spec fn command_step(c: SlashInvocation, r: SlashStep) -> bool {
    match c.action {
        SlashAction::Help => r is Help,
        SlashAction::Status => r is Status,
        SlashAction::Run => r matches SlashStep::Run(id) && id@ == text::join(
            text::views(c.args@),
            " "@,
        ),
        SlashAction::Sessions => r is ListSessions,
        SlashAction::Resume => if c.args@.len() == 0 {
            r is ChooseSession
        } else {
            r matches SlashStep::Resume(s) && s@ == c.args@[0]@
        },
        SlashAction::New => r is NewSession,
        SlashAction::Cancel => answers_with(
            r,
            "当前没有前台请求；运行中按 Ctrl-C 可取消本轮。"@,
        ),
        SlashAction::Skill => r matches SlashStep::Skill(a) && a == c.args,
        SlashAction::Cron => r matches SlashStep::Cron(a) && a == c.args,
        SlashAction::Mcp => r matches SlashStep::Mcp(a) && a == c.args,
        SlashAction::Permissions => r matches SlashStep::Permissions(a) && a == c.args,
        SlashAction::Models => r matches SlashStep::Models(a) && a == c.args,
        SlashAction::Ping => answers_with(r, "pong"@),
        SlashAction::Dogfood => r is Dogfood,
        SlashAction::Web => answers_with(
            r,
            "请在 TUI 中使用 /web，或运行 `my-agent serve`。"@,
        ),
        SlashAction::Exit => r matches SlashStep::Respond(SlashResponse::Exit),
    }
}

fn say(content: &str) -> (r: SlashStep)
    ensures
        answers_with(r, content@),
{
    SlashStep::Respond(SlashResponse::Text { content: content.to_owned() })
}

/// Decides what is done for a line.
pub fn execute_slash(parsed: SlashParse) -> (r: SlashStep)
    ensures
        match parsed {
            SlashParse::NotCommand => answers_with(r, "输入不是 slash 命令"@),
            SlashParse::Error(e) => answers_with(r, e@),
            SlashParse::Command(c) => command_step(c, r),
        },
{
    let command = match parsed {
        SlashParse::NotCommand => return say("输入不是 slash 命令"),
        SlashParse::Error(content) => return SlashStep::Respond(SlashResponse::Text { content }),
        SlashParse::Command(c) => c,
    };
    match command.action {
        SlashAction::Help => SlashStep::Help,
        SlashAction::Status => SlashStep::Status,
        SlashAction::Run => SlashStep::Run(text::join_texts(&command.args, " ")),
        SlashAction::Sessions => SlashStep::ListSessions,
        SlashAction::Resume => if command.args.len() == 0 {
            SlashStep::ChooseSession
        } else {
            SlashStep::Resume(command.args[0].clone())
        },
        SlashAction::New => SlashStep::NewSession,
        SlashAction::Cancel => say("当前没有前台请求；运行中按 Ctrl-C 可取消本轮。"),
        SlashAction::Skill => SlashStep::Skill(command.args),
        SlashAction::Cron => SlashStep::Cron(command.args),
        SlashAction::Mcp => SlashStep::Mcp(command.args),
        SlashAction::Permissions => SlashStep::Permissions(command.args),
        SlashAction::Models => SlashStep::Models(command.args),
        SlashAction::Ping => say("pong"),
        SlashAction::Dogfood => SlashStep::Dogfood,
        SlashAction::Web => say("请在 TUI 中使用 /web，或运行 `my-agent serve`。"),
        SlashAction::Exit => SlashStep::Respond(SlashResponse::Exit),
    }
}

/// Tells how a session stands.
pub fn status_text(
    session_id: &str,
    model: Option<&str>,
    messages: usize,
    active_requests: usize,
    approvals: usize,
) -> (r: String)
    ensures
        r@ == "会话 "@ + session_id@ + " · 模型 "@ + (match model {
            Some(m) => m@,
            None => "未配置"@,
        }) + " · 历史 "@ + text::decimal(messages as nat) + " 条 · 活动请求 "@ + text::decimal(
            active_requests as nat,
        ) + " 个 · 待审批 "@ + text::decimal(approvals as nat) + " 个"@,
{
    let mut r = "会话 ".to_owned();
    r.append(session_id);
    r.append(" · 模型 ");
    r.append(
        match model {
            Some(m) => m,
            None => "未配置",
        },
    );
    r.append(" · 历史 ");
    r.append(text::decimal_text(messages as u64).as_str());
    r.append(" 条 · 活动请求 ");
    r.append(text::decimal_text(active_requests as u64).as_str());
    r.append(" 个 · 待审批 ");
    r.append(text::decimal_text(approvals as u64).as_str());
    r.append(" 个");
    r
}

/// What a run came to: its answer, else its error.
pub open spec fn run_end_text(run: RunView) -> Seq<char> {
    match (run.content, run.error_message) {
        (Some(c), _) => c,
        (None, Some(m)) => m,
        (None, None) => ""@,
    }
}

/// Tells about a run that was looked up.
pub fn run_text(id: &str, read: Result<Option<RunRecord>, String>) -> (r: Result<String, Failure>)
    ensures
        match read {
            Err(e) => chat::fails(r, INTERNAL_ERROR, e@),
            Ok(None) => chat::fails(r, INVALID_PARAMS, "找不到 run: "@ + id@),
            Ok(Some(run)) => r is Ok && r->Ok_0@ == "run_id="@ + run@.run_id + " · session_id="@
                + run@.session_id + " · status="@ + chat::status_name(run@.status) + " · seq="@
                + text::decimal(run@.last_seq as nat) + " · terminal="@ + run_end_text(run@),
        },
{
    let run = match read {
        Err(e) => return Err((INTERNAL_ERROR, e)),
        Ok(None) => {
            let mut m = "找不到 run: ".to_owned();
            m.append(id);
            return Err((INVALID_PARAMS, m));
        },
        Ok(Some(run)) => run,
    };
    let mut r = "run_id=".to_owned();
    r.append(run.run_id.as_str());
    r.append(" · session_id=");
    r.append(run.session_id.as_str());
    r.append(" · status=");
    r.append(run.status.name());
    r.append(" · seq=");
    r.append(text::decimal_text(run.last_seq).as_str());
    r.append(" · terminal=");
    match (&run.content, &run.error_message) {
        (Some(c), _) => r.append(c.as_str()),
        (None, Some(m)) => r.append(m.as_str()),
        (None, None) => r.append(""),
    }
    Ok(r)
}

/// The sessions with messages, in order.
pub open spec fn with_messages(v: Seq<SessionInfoView>) -> Seq<SessionInfoView>
    decreases v.len(),
{
    if v.len() == 0 {
        Seq::empty()
    } else {
        let rest = with_messages(v.drop_last());
        if v.last().message_count > 0 {
            rest.push(v.last())
        } else {
            rest
        }
    }
}

/// The sessions that can be taken up again: those with messages.
pub fn resumable(sessions: &Vec<SessionInfo>) -> (r: Vec<SessionInfo>)
    ensures
        sessions::session_views(r@) == with_messages(sessions::session_views(sessions@)),
{
    let ghost all = sessions::session_views(sessions@);
    let mut out: Vec<SessionInfo> = Vec::new();
    let mut i: usize = 0;
    assert(all.take(0) =~= Seq::<SessionInfoView>::empty());
    assert(sessions::session_views(out@) =~= Seq::<SessionInfoView>::empty());
    while i < sessions.len()
        invariant
            i <= sessions@.len(),
            all == sessions::session_views(sessions@),
            sessions::session_views(out@) == with_messages(all.take(i as int)),
        decreases sessions@.len() - i,
    {
        proof {
            assert(all.take(i + 1).drop_last() =~= all.take(i as int));
            assert(all.take(i + 1).last() == sessions@[i as int]@);
        }
        if sessions[i].message_count > 0 {
            let ghost before = sessions::session_views(out@);
            let s = sessions[i].clone();
            out.push(s);
            assert(sessions::session_views(out@) =~= before.push(s@));
        }
        i = i + 1;
    }
    assert(all.take(i as int) =~= all);
    out
}

/// The session that is chosen: the one with the number, counted from one, or the one with the
/// identifier.
pub fn chosen_session(selection: &str, sessions: &Vec<SessionInfo>) -> (r: Result<String, Failure>)
    ensures
        match text::unsigned_value(selection@, usize::MAX as nat) {
            Some(n) => if n == 0 {
                chat::fails(r, INVALID_PARAMS, "会话编号从 1 开始"@)
            } else if n <= sessions@.len() {
                r is Ok && r->Ok_0@ == sessions@[n - 1]@.id
            } else {
                chat::fails(r, INVALID_PARAMS, "会话编号超出范围："@ + text::decimal(n))
            },
            None => r is Ok && r->Ok_0@ == selection@,
        },
{
    match text::parse_unsigned(selection, usize::MAX as u64) {
        Some(n) => {
            if n == 0 {
                return Err((INVALID_PARAMS, "会话编号从 1 开始".to_owned()));
            }
            let at: usize = n as usize - 1;
            if at < sessions.len() {
                Ok(sessions[at].id.clone())
            } else {
                let mut m = "会话编号超出范围：".to_owned();
                m.append(text::decimal_text(n).as_str());
                Err((INVALID_PARAMS, m))
            }
        },
        None => Ok(selection.to_owned()),
    }
}

/// The answer once a session is taken up again.
pub fn resumed(session_id: &str, messages: usize, snapshot: Json) -> (r: SlashResponse)
    ensures
        r matches SlashResponse::SessionChanged { message, snapshot: s } && s == snapshot
            && message@ == "已恢复会话 "@ + session_id@ + "，共 "@ + text::decimal(messages as nat)
            + " 条消息。"@,
{
    let mut message = "已恢复会话 ".to_owned();
    message.append(session_id);
    message.append("，共 ");
    message.append(text::decimal_text(messages as u64).as_str());
    message.append(" 条消息。");
    SlashResponse::SessionChanged { message, snapshot }
}

/// The answer once a session is opened.
pub fn opened(session_id: &str, snapshot: Json) -> (r: SlashResponse)
    ensures
        r matches SlashResponse::SessionChanged { message, snapshot: s } && s == snapshot
            && message@ == "已新建会话："@ + session_id@,
{
    let mut message = "已新建会话：".to_owned();
    message.append(session_id);
    SlashResponse::SessionChanged { message, snapshot }
}

/// A mode of permissions as it is shown.
#[derive(Debug)]
pub struct ModeInfo {
    pub key: String,
    pub label: String,
    pub description: String,
}

/// What is shown of a mode.
pub open spec fn mode_fields(m: ModeInfo) -> Seq<(Seq<char>, JsonView)> {
    seq![
        ("mode"@, JsonView::Str(m.key@)),
        ("label"@, JsonView::Str(m.label@)),
        ("description"@, JsonView::Str(m.description@)),
    ]
}

fn put_mode(f: &mut Vec<(String, Json)>, m: &ModeInfo)
    ensures
        json::fields_view(final(f)@) == json::fields_view(old(f)@) + mode_fields(*m),
{
    json::put(f, "mode", Json::Str(m.key.clone()));
    json::put(f, "label", Json::Str(m.label.clone()));
    json::put(f, "description", Json::Str(m.description.clone()));
    assert(json::fields_view(f@) =~= json::fields_view(old(f)@) + mode_fields(*m));
}

/// The documents of modes.
pub open spec fn modes_json(v: Seq<ModeInfo>) -> Seq<JsonView> {
    Seq::new(v.len(), |i: int| JsonView::Object(mode_fields(v[i])))
}

/// Tells the mode of permissions, where there is one, with all that could be chosen.
pub fn permissions_get(mode: Option<&ModeInfo>, options: &Vec<ModeInfo>) -> (r: Result<
    Json,
    Failure,
>)
    ensures
        match mode {
            None => chat::fails(r, INTERNAL_ERROR, "当前 daemon 未暴露权限模式控制器"@),
            Some(m) => r is Ok && r->Ok_0@ == JsonView::Object(
                mode_fields(*m).push(("options"@, JsonView::Array(modes_json(options@)))),
            ),
        },
{
    let mode = match mode {
        Some(m) => m,
        None => return Err((INTERNAL_ERROR, "当前 daemon 未暴露权限模式控制器".to_owned())),
    };
    let mut items: Vec<Json> = Vec::new();
    let mut i: usize = 0;
    while i < options.len()
        invariant
            i <= options@.len(),
            items@.len() == i,
            forall|k: int|
                0 <= k < i ==> (#[trigger] items@[k])@ == JsonView::Object(
                    mode_fields(options@[k]),
                ),
        decreases options@.len() - i,
    {
        let mut o = json::no_fields();
        put_mode(&mut o, &options[i]);
        assert(json::fields_view(o@) =~= mode_fields(options@[i as int]));
        items.push(json::object(o));
        i = i + 1;
    }
    assert(json::list_view(items@) =~= modes_json(options@));
    let mut f = json::no_fields();
    put_mode(&mut f, mode);
    json::put(&mut f, "options", json::array(items));
    assert(json::fields_view(f@) =~= mode_fields(*mode).push(
        ("options"@, JsonView::Array(modes_json(options@))),
    ));
    Ok(json::object(f))
}

/// The reply to a change of the mode; `chosen` is the mode that was named, if it is one.
pub fn permissions_set(available: bool, chosen: Option<&ModeInfo>) -> (r: Result<Json, Failure>)
    ensures
        if !available {
            chat::fails(r, INTERNAL_ERROR, "当前 daemon 未暴露权限模式控制器"@)
        } else {
            match chosen {
                None => chat::fails(
                    r,
                    INVALID_PARAMS,
                    "权限模式无效，可选值：request、risk、full"@,
                ),
                Some(m) => r is Ok && r->Ok_0@ == JsonView::Object(
                    seq![("changed"@, JsonView::Bool(true))] + mode_fields(*m),
                ),
            }
        },
{
    if !available {
        return Err((INTERNAL_ERROR, "当前 daemon 未暴露权限模式控制器".to_owned()));
    }
    match chosen {
        None => Err((INVALID_PARAMS, "权限模式无效，可选值：request、risk、full".to_owned())),
        Some(m) => {
            let mut f = json::no_fields();
            json::put(&mut f, "changed", Json::Bool(true));
            put_mode(&mut f, m);
            assert(json::fields_view(f@) =~= seq![("changed"@, JsonView::Bool(true))]
                + mode_fields(*m));
            Ok(json::object(f))
        },
    }
}

/// The answer to the command for permissions: the mode, a change, or why there is none.
pub open spec fn permissions_text(
    mode: Option<ModeInfo>,
    asked: bool,
    chosen: Option<ModeInfo>,
) -> Seq<char> {
    match mode {
        None => "当前 daemon 未暴露权限模式控制器。"@,
        Some(m) => if !asked {
            "当前权限模式："@ + m.label@ + "（"@ + m.description@
                + "）。切换用法：/permissions request|risk|full"@
        } else {
            match chosen {
                None =>
                    "权限模式无效，可选值：request（请求批准）、risk（帮我批准）、full（完全访问权限）。"@,
                Some(c) => "已切换权限模式："@ + c.label@ + "（"@ + c.description@ + "）"@,
            }
        },
    }
}

/// Answers the command for permissions. `mode` is the mode now, `chosen` the one that was
/// named, if it is one.
pub fn execute_permissions_command(
    args: &Vec<String>,
    mode: Option<ModeInfo>,
    chosen: Option<ModeInfo>,
) -> (r: String)
    ensures
        r@ == permissions_text(mode, args@.len() > 0, chosen),
{
    match mode {
        None => "当前 daemon 未暴露权限模式控制器。".to_owned(),
        Some(m) => if args.len() == 0 {
            let mut r = "当前权限模式：".to_owned();
            r.append(m.label.as_str());
            r.append("（");
            r.append(m.description.as_str());
            r.append("）。切换用法：/permissions request|risk|full");
            r
        } else {
            match chosen {
                None =>
                    "权限模式无效，可选值：request（请求批准）、risk（帮我批准）、full（完全访问权限）。".to_owned(),
                Some(c) => {
                    let mut r = "已切换权限模式：".to_owned();
                    r.append(c.label.as_str());
                    r.append("（");
                    r.append(c.description.as_str());
                    r.append("）");
                    r
                },
            }
        },
    }
}

/// What is told of the end of a run is its content; without one its error; without either
/// nothing.
pub proof fn law_ends_are_told(run: RunView)
    ensures
        run.content is Some ==> run_end_text(run) == run.content->0,
        run.content is None && run.error_message is Some ==> run_end_text(run)
            == run.error_message->0,
        run.content is None && run.error_message is None ==> run_end_text(run).len() == 0,
{
    reveal_strlit("");
}

/// The sessions to choose from are those with messages, each once and in order.
pub proof fn law_empty_sessions_are_not_offered(v: Seq<SessionInfoView>, w: Seq<SessionInfoView>)
    ensures
        with_messages(v).len() <= v.len(),
        forall|i: int|
            0 <= i < v.len() && (#[trigger] v[i]).message_count > 0 ==> with_messages(v).contains(
                v[i],
            ),
        forall|k: int|
            0 <= k < with_messages(v).len() ==> (#[trigger] with_messages(v)[k]).message_count > 0
                && v.contains(with_messages(v)[k]),
        with_messages(v + w) == with_messages(v) + with_messages(w),
    decreases v.len(), w.len(),
{
    if v.len() > 0 {
        let u = v.drop_last();
        let none = Seq::<SessionInfoView>::empty();
        law_empty_sessions_are_not_offered(u, none);
        let a = with_messages(v);
        let b = with_messages(u);
        assert(v[v.len() - 1] == v.last());
        assert forall|i: int| 0 <= i < v.len() && (#[trigger] v[i]).message_count > 0 implies a.contains(
            v[i],
        ) by {
            if i < u.len() {
                assert(u[i] == v[i]);
                let k = choose|k: int| 0 <= k < b.len() && b[k] == u[i];
                assert(a[k] == v[i]);
            } else {
                assert(a[a.len() - 1] == v[i]);
            }
        }
        assert forall|k: int| 0 <= k < a.len() implies (#[trigger] a[k]).message_count > 0
            && v.contains(a[k]) by {
            if k < b.len() {
                assert(a[k] == b[k]);
                let i = choose|i: int| 0 <= i < u.len() && u[i] == b[k];
                assert(v[i] == a[k]);
            }
        }
    }
    lemma_offered_add_up(v, w);
}

proof fn lemma_offered_add_up(v: Seq<SessionInfoView>, w: Seq<SessionInfoView>)
    ensures
        with_messages(v + w) == with_messages(v) + with_messages(w),
    decreases w.len(),
{
    if w.len() == 0 {
        assert(v + w =~= v);
    } else {
        lemma_offered_add_up(v, w.drop_last());
        assert((v + w).drop_last() =~= v + w.drop_last());
        assert((v + w).last() == w.last());
    }
    assert(with_messages(v + w) =~= with_messages(v) + with_messages(w));
}

/// A mode is told with its key, its label and what it means; a list of modes in order.
pub proof fn law_modes_read_back(v: Seq<ModeInfo>, i: int)
    requires
        0 <= i < v.len(),
    ensures
        modes_json(v).len() == v.len(),
        json::at_key(modes_json(v)[i], "mode"@) == JsonView::Str(v[i].key@),
        json::at_key(modes_json(v)[i], "label"@) == JsonView::Str(v[i].label@),
        json::at_key(modes_json(v)[i], "description"@) == JsonView::Str(v[i].description@),
{
    reveal_strlit("mode");
    reveal_strlit("label");
    reveal_strlit("description");
    assert("mode"@.len() == 4 && "label"@.len() == 5 && "description"@.len() == 11);
    json::lemma_field_at(modes_json(v)[i], "mode"@, 0);
    json::lemma_field_at(modes_json(v)[i], "label"@, 1);
    json::lemma_field_at(modes_json(v)[i], "description"@, 2);
}

/// A command is carried out as what it asks for: the same action, with its own arguments.
pub proof fn law_commands_do_what_they_say(c: SlashInvocation, r: SlashStep)
    requires
        command_step(c, r),
    ensures
        c.action is Help <==> r is Help,
        c.action is Status <==> r is Status,
        c.action is Sessions <==> r is ListSessions,
        c.action is New <==> r is NewSession,
        c.action is Dogfood <==> r is Dogfood,
        c.action is Run <==> r is Run,
        c.action is Skill <==> r is Skill,
        c.action is Cron <==> r is Cron,
        c.action is Mcp <==> r is Mcp,
        c.action is Permissions <==> r is Permissions,
        c.action is Models <==> r is Models,
        c.action is Resume <==> r is ChooseSession || r is Resume,
        r is ChooseSession ==> c.args@.len() == 0,
        r matches SlashStep::Resume(s) ==> c.args@.len() > 0 && s@ == c.args@[0]@,
        r matches SlashStep::Run(id) ==> c.args@.len() == 1 ==> id@ == c.args@[0]@,
        r matches SlashStep::Skill(a) ==> a == c.args,
        r matches SlashStep::Cron(a) ==> a == c.args,
        r matches SlashStep::Mcp(a) ==> a == c.args,
        r matches SlashStep::Permissions(a) ==> a == c.args,
        r matches SlashStep::Models(a) ==> a == c.args,
        r matches SlashStep::Respond(SlashResponse::Exit) ==> c.action is Exit,
        c.action is Exit ==> (r matches SlashStep::Respond(SlashResponse::Exit)),
{
}

/// The permissions are told by the label of the mode that is used; after a change by that of
/// the mode that was chosen.
pub proof fn law_permissions_are_told(mode: ModeInfo, chosen: ModeInfo)
    ensures
        text::has_text(permissions_text(Some(mode), false, None), mode.label@),
        text::has_text(permissions_text(Some(mode), true, Some(chosen)), chosen.label@),
        text::has_text(permissions_text(Some(mode), true, Some(chosen)), chosen.description@),
        permissions_text(Some(mode), true, None) != permissions_text(None, true, None),
{
    reveal_strlit("当前 daemon 未暴露权限模式控制器。");
    reveal_strlit(
        "权限模式无效，可选值：request（请求批准）、risk（帮我批准）、full（完全访问权限）。",
    );
    assert("当前 daemon 未暴露权限模式控制器。"@[0]
        != "权限模式无效，可选值：request（请求批准）、risk（帮我批准）、full（完全访问权限）。"@[0]);
    let t = permissions_text(Some(mode), false, None);
    let a = "当前权限模式："@.len() as int;
    assert(t.subrange(a, a + mode.label@.len()) =~= mode.label@);
    assert(text::occurs_at(t, mode.label@, a));
    let u = permissions_text(Some(mode), true, Some(chosen));
    let b = "已切换权限模式："@.len() as int;
    assert(u.subrange(b, b + chosen.label@.len()) =~= chosen.label@);
    assert(text::occurs_at(u, chosen.label@, b));
    let c = b + chosen.label@.len() + "（"@.len();
    assert(u.subrange(c, c + chosen.description@.len()) =~= chosen.description@);
    assert(text::occurs_at(u, chosen.description@, c));
}

} // verus!
