//! The full-screen terminal.
use vstd::prelude::*;

use crate::daemon::approval;
use crate::daemon::approval::{ApprovalView, PendingApprovalInfo};
use crate::daemon::protocol::{RequestId, RequestIdView};
use crate::daemon::sessions;
use crate::daemon::sessions::{SessionInfo, SessionInfoView};
use crate::entry::tui::input_editor::{EditorView, InputEditor};
use crate::json;
use crate::provider;
use crate::provider::{Message, MessageView, Role};
use crate::text;

pub mod frames;
pub mod input_editor;
pub mod keybindings;
pub mod keys;
pub mod layout;
pub mod view;

verus! {

/// How many lines that were typed are remembered.
pub const MAX_INPUT_HISTORY: usize = 100;

/// The tokens that a message took.
#[derive(Clone, Copy, Debug, PartialEq, Eq, Structural)]
pub struct TokenUsage {
    pub input: u32,
    pub output: u32,
}

/// How a tool call stands.
#[derive(Clone, Copy, Debug, PartialEq, Eq, Structural)]
pub enum ToolStatus {
    Running,
    Done,
    Failed,
}

/// A tool call as it is shown. Times are in milliseconds.
#[derive(Debug)]
pub struct UiToolCall {
    pub turn_id: RequestId,
    pub call_id: Option<String>,
    pub name: String,
    pub heading: String,
    pub round: usize,
    pub status: ToolStatus,
    pub output: Vec<String>,
    pub expanded: Option<bool>,
    pub started_at: u64,
    pub finished_at: Option<u64>,
    pub duration_ms: Option<u64>,
}

/// What is shown of a tool call.
pub struct ToolView {
    pub turn_id: RequestIdView,
    pub call_id: Option<Seq<char>>,
    pub name: Seq<char>,
    pub heading: Seq<char>,
    pub round: usize,
    pub status: ToolStatus,
    pub output: Seq<Seq<char>>,
    pub expanded: Option<bool>,
    pub started_at: u64,
    pub finished_at: Option<u64>,
    pub duration_ms: Option<u64>,
}

impl View for UiToolCall {
    type V = ToolView;

    open spec fn view(&self) -> ToolView {
        ToolView {
            turn_id: self.turn_id@,
            call_id: json::opt_text(self.call_id),
            name: self.name@,
            heading: self.heading@,
            round: self.round,
            status: self.status,
            output: text::views(self.output@),
            expanded: self.expanded,
            started_at: self.started_at,
            finished_at: self.finished_at,
            duration_ms: self.duration_ms,
        }
    }
}

impl Clone for UiToolCall {
    fn clone(&self) -> (r: Self)
        ensures
            r@ == self@,
    {
        UiToolCall {
            turn_id: self.turn_id.clone(),
            call_id: provider::clone_opt(&self.call_id),
            name: self.name.clone(),
            heading: self.heading.clone(),
            round: self.round,
            status: self.status,
            output: provider::clone_texts(&self.output),
            expanded: self.expanded,
            started_at: self.started_at,
            finished_at: self.finished_at,
            duration_ms: self.duration_ms,
        }
    }
}

/// What a message holds.
#[derive(Debug)]
pub enum UiMessageKind {
    Text(String),
    Tool(UiToolCall),
}

/// What is shown of what a message holds.
pub enum KindView {
    Text(Seq<char>),
    Tool(ToolView),
}

impl View for UiMessageKind {
    type V = KindView;

    open spec fn view(&self) -> KindView {
        match *self {
            UiMessageKind::Text(s) => KindView::Text(s@),
            UiMessageKind::Tool(t) => KindView::Tool(t@),
        }
    }
}

impl Clone for UiMessageKind {
    fn clone(&self) -> (r: Self)
        ensures
            r@ == self@,
    {
        match self {
            UiMessageKind::Text(s) => UiMessageKind::Text(s.clone()),
            UiMessageKind::Tool(t) => UiMessageKind::Tool(t.clone()),
        }
    }
}

/// A message as it is shown. Its time is in milliseconds.
#[derive(Debug)]
pub struct UiMessage {
    pub id: u64,
    pub role: Role,
    pub kind: UiMessageKind,
    pub created_at: u64,
    pub token_usage: Option<TokenUsage>,
    pub content_version: u64,
    pub turn_id: Option<RequestId>,
}

/// What is shown of a message.
pub struct UiMessageView {
    pub id: u64,
    pub role: Role,
    pub kind: KindView,
    pub created_at: u64,
    pub token_usage: Option<TokenUsage>,
    pub content_version: u64,
    pub turn_id: Option<RequestIdView>,
}

/// The view of an optional request identifier.
pub open spec fn opt_id(id: Option<RequestId>) -> Option<RequestIdView> {
    match id {
        Some(v) => Some(v@),
        None => None,
    }
}

impl View for UiMessage {
    type V = UiMessageView;

    open spec fn view(&self) -> UiMessageView {
        UiMessageView {
            id: self.id,
            role: self.role,
            kind: self.kind@,
            created_at: self.created_at,
            token_usage: self.token_usage,
            content_version: self.content_version,
            turn_id: opt_id(self.turn_id),
        }
    }
}

impl Clone for UiMessage {
    fn clone(&self) -> (r: Self)
        ensures
            r@ == self@,
    {
        UiMessage {
            id: self.id,
            role: self.role,
            kind: self.kind.clone(),
            created_at: self.created_at,
            token_usage: self.token_usage,
            content_version: self.content_version,
            turn_id: match &self.turn_id {
                Some(id) => Some(id.clone()),
                None => None,
            },
        }
    }
}

/// What is shown of messages.
pub open spec fn ui_views(v: Seq<UiMessage>) -> Seq<UiMessageView> {
    Seq::new(v.len(), |i: int| v[i]@)
}

/// A turn whose events are received.
#[derive(Debug)]
pub struct ActiveTurn {
    pub request_id: RequestId,
    pub recovery_attempts: u8,
}

/// What a turn whose events are received is.
pub struct TurnView {
    pub request_id: RequestIdView,
    pub recovery_attempts: u8,
}

impl View for ActiveTurn {
    type V = TurnView;

    open spec fn view(&self) -> TurnView {
        TurnView { request_id: self.request_id@, recovery_attempts: self.recovery_attempts }
    }
}

/// What turns are.
pub open spec fn turn_views(v: Seq<ActiveTurn>) -> Seq<TurnView> {
    Seq::new(v.len(), |i: int| v[i]@)
}

/// What goes on.
#[derive(Clone, Copy, Debug, PartialEq, Eq, Structural)]
pub enum ActivityPhase {
    Idle,
    Recovering,
    WaitingModel,
    Streaming,
    RunningTool,
    WaitingApproval,
}

impl ActivityPhase {
    /// What goes on is shown by something that moves.
    pub open spec fn moves(self) -> bool {
        self == ActivityPhase::Recovering || self == ActivityPhase::WaitingModel || self
            == ActivityPhase::Streaming || self == ActivityPhase::RunningTool
    }

    /// What goes on is shown by something that moves.
    pub fn is_animated(self) -> (r: bool)
        ensures
            r == self.moves(),
    {
        match self {
            ActivityPhase::Recovering => true,
            ActivityPhase::WaitingModel => true,
            ActivityPhase::Streaming => true,
            ActivityPhase::RunningTool => true,
            _ => false,
        }
    }
}

/// The colours of the terminal.
#[derive(Clone, Copy, Debug, PartialEq, Eq, Structural)]
pub enum TuiThemeMode {
    Terminal,
    Dark,
    Light,
}

/// The colours that a setting names.
pub open spec fn theme_of(setting: Option<Seq<char>>) -> TuiThemeMode {
    match setting {
        Some(s) => {
            let word = text::lower(text::trim(s));
            if word == "dark"@ || word == "truecolor"@ {
                TuiThemeMode::Dark
            } else if word == "light"@ {
                TuiThemeMode::Light
            } else {
                TuiThemeMode::Terminal
            }
        },
        None => TuiThemeMode::Terminal,
    }
}

impl TuiThemeMode {
    /// The colours that a setting of the environment names.
    pub fn from_env(setting: Option<&str>) -> (r: Self)
        ensures
            r == theme_of(json::opt_view(setting)),
    {
        match setting {
            Some(s) => {
                let word = text::lower_text(text::trim_text(s).as_str());
                if text::same(word.as_str(), "dark") || text::same(word.as_str(), "truecolor") {
                    TuiThemeMode::Dark
                } else if text::same(word.as_str(), "light") {
                    TuiThemeMode::Light
                } else {
                    TuiThemeMode::Terminal
                }
            },
            None => TuiThemeMode::Terminal,
        }
    }
}

/// What the daemon tells of a session when the terminal joins it.
#[derive(Debug)]
pub struct RecoverySnapshot {
    pub session_id: String,
    pub messages: Vec<Message>,
    pub pending_approvals: Vec<PendingApprovalInfo>,
    pub active_requests: Vec<RequestId>,
}

/// Where the terminal runs.
#[derive(Debug)]
pub struct Surroundings {
    pub workspace: String,
    pub web_url: String,
    pub theme_mode: TuiThemeMode,
}

/// The terminal.
#[derive(Debug)]
pub struct TuiState {
    pub session_id: String,
    pub messages: Vec<UiMessage>,
    pub next_message_id: u64,
    pub input: InputEditor,
    pub input_history: Vec<String>,
    pub history_cursor: Option<usize>,
    pub active_turns: Vec<ActiveTurn>,
    pub recovery_active_requests: Vec<RequestId>,
    pub queued_count: usize,
    pub pending_approvals: Vec<PendingApprovalInfo>,
    pub approval_scroll: usize,
    pub status: String,
    pub should_quit: bool,
    pub scroll: usize,
    pub follow_bottom: bool,
    pub unread_messages: usize,
    pub transcript_start: usize,
    pub preserve_transcript_start: Option<usize>,
    pub preserve_message_id: Option<u64>,
    pub show_tools: bool,
    pub show_help: bool,
    pub turn_phases: Vec<(RequestId, ActivityPhase)>,
    pub animation_tick: u64,
    pub workspace: String,
    pub web_url: String,
    pub theme_mode: TuiThemeMode,
    pub resume_choices: Vec<SessionInfo>,
    pub slash_selection: usize,
}

/// What the terminal shows and remembers.
#[verifier::ext_equal]
pub struct TuiView {
    pub session_id: Seq<char>,
    pub messages: Seq<UiMessageView>,
    pub next_message_id: u64,
    pub input: EditorView,
    pub input_history: Seq<Seq<char>>,
    pub history_cursor: Option<usize>,
    pub active_turns: Seq<TurnView>,
    pub recovery_active_requests: Seq<RequestIdView>,
    pub queued_count: usize,
    pub pending_approvals: Seq<ApprovalView>,
    pub approval_scroll: usize,
    pub status: Seq<char>,
    pub should_quit: bool,
    pub scroll: usize,
    pub follow_bottom: bool,
    pub unread_messages: usize,
    pub transcript_start: usize,
    pub preserve_transcript_start: Option<usize>,
    pub preserve_message_id: Option<u64>,
    pub show_tools: bool,
    pub show_help: bool,
    pub turn_phases: Map<RequestIdView, ActivityPhase>,
    pub animation_tick: u64,
    pub workspace: Seq<char>,
    pub web_url: Seq<char>,
    pub theme_mode: TuiThemeMode,
    pub resume_choices: Seq<SessionInfoView>,
    pub slash_selection: usize,
}

/// What goes on in which turn; a later entry goes before an earlier one.
pub open spec fn phase_map(v: Seq<(RequestId, ActivityPhase)>) -> Map<RequestIdView, ActivityPhase>
    decreases v.len(),
{
    if v.len() == 0 {
        Map::empty()
    } else {
        phase_map(v.drop_last()).insert(v.last().0@, v.last().1)
    }
}

impl View for TuiState {
    type V = TuiView;

    open spec fn view(&self) -> TuiView {
        TuiView {
            session_id: self.session_id@,
            messages: ui_views(self.messages@),
            next_message_id: self.next_message_id,
            input: self.input@,
            input_history: text::views(self.input_history@),
            history_cursor: self.history_cursor,
            active_turns: turn_views(self.active_turns@),
            recovery_active_requests: sessions::id_views(self.recovery_active_requests@),
            queued_count: self.queued_count,
            pending_approvals: approval::info_views(self.pending_approvals@),
            approval_scroll: self.approval_scroll,
            status: self.status@,
            should_quit: self.should_quit,
            scroll: self.scroll,
            follow_bottom: self.follow_bottom,
            unread_messages: self.unread_messages,
            transcript_start: self.transcript_start,
            preserve_transcript_start: self.preserve_transcript_start,
            preserve_message_id: self.preserve_message_id,
            show_tools: self.show_tools,
            show_help: self.show_help,
            turn_phases: phase_map(self.turn_phases@),
            animation_tick: self.animation_tick,
            workspace: self.workspace@,
            web_url: self.web_url@,
            theme_mode: self.theme_mode,
            resume_choices: sessions::session_views(self.resume_choices@),
            slash_selection: self.slash_selection,
        }
    }
}

/// A number after another, as far as numbers go.
pub open spec fn after(n: u64) -> u64 {
    if n == u64::MAX {
        n
    } else {
        (n + 1) as u64
    }
}

/// The message that a text gives.
pub open spec fn text_ui(
    id: u64,
    role: Role,
    content: Seq<char>,
    turn_id: Option<RequestIdView>,
    now: u64,
) -> UiMessageView {
    UiMessageView {
        id,
        role,
        kind: KindView::Text(content),
        created_at: now,
        token_usage: None,
        content_version: 0,
        turn_id,
    }
}

/// Makes a message of one that is kept, if it has a text.
pub fn message_to_ui(message: Message, id: u64, now: u64) -> (r: Option<UiMessage>)
    ensures
        match message@.content {
            Some(c) => r is Some && r->0@ == text_ui(id, message@.role, c, None, now),
            None => r is None,
        },
{
    match message.content {
        Some(content) => Some(
            UiMessage {
                id,
                role: message.role,
                kind: UiMessageKind::Text(content),
                created_at: now,
                token_usage: None,
                content_version: 0,
                turn_id: None,
            },
        ),
        None => None,
    }
}

/// The messages of those that are kept: the ones with a text, each with its number.
pub open spec fn shown_messages(v: Seq<MessageView>, now: u64) -> Seq<UiMessageView>
    decreases v.len(),
{
    if v.len() == 0 {
        Seq::empty()
    } else {
        let rest = shown_messages(v.drop_last(), now);
        match v.last().content {
            Some(c) => rest.push(text_ui(v.len() as u64, v.last().role, c, None, now)),
            None => rest,
        }
    }
}

fn show_messages(messages: Vec<Message>, now: u64) -> (r: Vec<UiMessage>)
    ensures
        ui_views(r@) == shown_messages(provider::message_views(messages@), now),
{
    let ghost all = provider::message_views(messages@);
    let mut out: Vec<UiMessage> = Vec::new();
    let mut id: u64 = 0;
    let total: usize = messages.len();
    assert(all.take(0) =~= Seq::<MessageView>::empty());
    assert(ui_views(out@) =~= Seq::<UiMessageView>::empty());
    for message in it: messages
        invariant
            all.len() == total,
            all == provider::message_views(it.seq()),
            id == it.index(),
            ui_views(out@) == shown_messages(all.take(it.index() as int), now),
    {
        proof {
            let i = it.index() as int;
            assert(all.take(i + 1).drop_last() =~= all.take(i));
            assert(all.take(i + 1).last() == all[i]);
            assert(all[i] == message@);
        }
        id = id + 1;
        match message_to_ui(message, id, now) {
            Some(m) => {
                let ghost before = ui_views(out@);
                out.push(m);
                assert(ui_views(out@) =~= before.push(m@));
            },
            None => {},
        }
    }
    assert(all.take(all.len() as int) =~= all);
    out
}

/// The turns of a snapshot, each to be taken up again.
pub open spec fn recovering(ids: Seq<RequestIdView>) -> Map<RequestIdView, ActivityPhase>
    decreases ids.len(),
{
    if ids.len() == 0 {
        Map::empty()
    } else {
        recovering(ids.drop_last()).insert(ids.last(), ActivityPhase::Recovering)
    }
}

/// Notes what goes on in a turn.
fn note_phase(v: &mut Vec<(RequestId, ActivityPhase)>, id: &RequestId, phase: ActivityPhase)
    requires
        phases_differ(old(v)@),
    ensures
        phases_differ(final(v)@),
        phase_map(final(v)@) == phase_map(old(v)@).insert(id@, phase),
{
    let ghost before = v@;
    let mut i: usize = 0;
    while i < v.len()
        invariant
            i <= v@.len(),
            v@ == before,
            before == old(v)@,
            phases_differ(before),
            forall|k: int| 0 <= k < i ==> (#[trigger] before[k]).0@ != id@,
        decreases v@.len() - i,
    {
        if v[i].0.same(id) {
            let entry = (id.clone(), phase);
            v.set(i, entry);
            proof {
                assert forall|k: int| i < k < before.len() implies (#[trigger] before[k]).0@
                    != id@ by {
                    assert(before[i as int].0@ != before[k].0@);
                }
                lemma_phase_update(before, i as int, entry);
                assert(v@ =~= before.update(i as int, entry));
                assert forall|a: int, b: int| 0 <= a < b < v@.len() implies (
                #[trigger] v@[a]).0@ != (#[trigger] v@[b]).0@ by {
                    assert(before[a].0@ != before[b].0@);
                }
            }
            return;
        }
        i = i + 1;
    }
    v.push((id.clone(), phase));
    assert(v@.drop_last() =~= before);
}

/// Forgets what goes on in a turn.
fn forget_phase(v: &mut Vec<(RequestId, ActivityPhase)>, id: &RequestId)
    requires
        phases_differ(old(v)@),
    ensures
        phases_differ(final(v)@),
        phase_map(final(v)@) == phase_map(old(v)@).remove(id@),
{
    let ghost before = v@;
    let mut i: usize = 0;
    while i < v.len()
        invariant
            i <= v@.len(),
            v@ == before,
            before == old(v)@,
            phases_differ(before),
            forall|k: int| 0 <= k < i ==> (#[trigger] before[k]).0@ != id@,
        decreases v@.len() - i,
    {
        if v[i].0.same(id) {
            v.remove(i);
            proof {
                lemma_phase_remove(before, i as int);
            }
            return;
        }
        i = i + 1;
    }
    proof {
        lemma_phase_dom(before, id@);
        assert(phase_map(before) =~= phase_map(before).remove(id@));
    }
}

fn recovering_phases(ids: &Vec<RequestId>) -> (r: Vec<(RequestId, ActivityPhase)>)
    ensures
        phases_differ(r@),
        phase_map(r@) == recovering(sessions::id_views(ids@)),
{
    let ghost all = sessions::id_views(ids@);
    let mut out: Vec<(RequestId, ActivityPhase)> = Vec::new();
    let mut i: usize = 0;
    assert(all.take(0) =~= Seq::<RequestIdView>::empty());
    while i < ids.len()
        invariant
            i <= ids@.len(),
            all == sessions::id_views(ids@),
            phases_differ(out@),
            phase_map(out@) == recovering(all.take(i as int)),
        decreases ids@.len() - i,
    {
        proof {
            assert(all.take(i + 1).drop_last() =~= all.take(i as int));
            assert(all.take(i + 1).last() == ids@[i as int]@);
        }
        note_phase(&mut out, &ids[i], ActivityPhase::Recovering);
        i = i + 1;
    }
    assert(all.take(i as int) =~= all);
    out
}

/// What a snapshot says.
pub struct SnapshotView {
    pub session_id: Seq<char>,
    pub messages: Seq<MessageView>,
    pub pending_approvals: Seq<ApprovalView>,
    pub active_requests: Seq<RequestIdView>,
}

impl View for RecoverySnapshot {
    type V = SnapshotView;

    open spec fn view(&self) -> SnapshotView {
        SnapshotView {
            session_id: self.session_id@,
            messages: provider::message_views(self.messages@),
            pending_approvals: approval::info_views(self.pending_approvals@),
            active_requests: sessions::id_views(self.active_requests@),
        }
    }
}

/// The state line when a session is joined.
pub open spec fn joining_status(s: SnapshotView) -> Seq<char> {
    if s.active_requests.len() > 0 {
        "正在恢复活动请求"@
    } else if s.pending_approvals.len() > 0 {
        "等待审批"@
    } else {
        "就绪"@
    }
}

/// The terminal when it joins a session.
pub open spec fn joined(s: SnapshotView, around: Surroundings, now: u64) -> TuiView {
    TuiView {
        session_id: s.session_id,
        messages: shown_messages(s.messages, now),
        next_message_id: after(s.messages.len() as u64),
        input: EditorView { text: Seq::empty(), cursor: 0 },
        input_history: Seq::empty(),
        history_cursor: None,
        active_turns: Seq::empty(),
        recovery_active_requests: s.active_requests,
        queued_count: 0,
        pending_approvals: s.pending_approvals,
        approval_scroll: 0,
        status: joining_status(s),
        should_quit: false,
        scroll: 0,
        follow_bottom: true,
        unread_messages: 0,
        transcript_start: 0,
        preserve_transcript_start: None,
        preserve_message_id: None,
        show_tools: false,
        show_help: false,
        turn_phases: recovering(s.active_requests),
        animation_tick: 0,
        workspace: around.workspace@,
        web_url: around.web_url@,
        theme_mode: around.theme_mode,
        resume_choices: Seq::empty(),
        slash_selection: 0,
    }
}

/// The terminal when it changes to another session.
pub open spec fn changed(t: TuiView, s: SnapshotView, now: u64) -> TuiView {
    let messages = shown_messages(s.messages, now);
    TuiView {
        session_id: s.session_id,
        messages,
        next_message_id: after(messages.len() as u64),
        active_turns: Seq::empty(),
        recovery_active_requests: s.active_requests,
        turn_phases: recovering(s.active_requests),
        pending_approvals: s.pending_approvals,
        approval_scroll: 0,
        scroll: 0,
        follow_bottom: true,
        unread_messages: 0,
        transcript_start: 0,
        preserve_transcript_start: None,
        preserve_message_id: None,
        show_help: false,
        animation_tick: 0,
        resume_choices: Seq::empty(),
        slash_selection: 0,
        ..t
    }
}

/// The terminal with a message more: one that comes while the reader is elsewhere counts as
/// unread.
pub open spec fn with_message(t: TuiView, m: UiMessageView) -> TuiView {
    TuiView {
        messages: t.messages.push(m),
        next_message_id: after(t.next_message_id),
        unread_messages: if t.follow_bottom || t.unread_messages == usize::MAX {
            t.unread_messages
        } else {
            (t.unread_messages + 1) as usize
        },
        ..t
    }
}

/// The terminal with a text more.
pub open spec fn with_text(
    t: TuiView,
    role: Role,
    content: Seq<char>,
    turn_id: Option<RequestIdView>,
    now: u64,
) -> TuiView {
    with_message(t, text_ui(t.next_message_id, role, content, turn_id, now))
}

/// How a tool is called in the transcript.
pub open spec fn heading_of(name: Seq<char>) -> Seq<char> {
    if name == "read_file"@ {
        "读取文件"@
    } else if name == "write_file"@ {
        "写入文件"@
    } else if name == "edit_file"@ {
        "编辑文件"@
    } else if name == "exec"@ {
        "运行命令"@
    } else {
        "执行 "@ + name
    }
}

/// How a tool is called in the transcript.
pub fn tool_heading(name: &str) -> (r: String)
    ensures
        r@ == heading_of(name@),
{
    if text::same(name, "read_file") {
        "读取文件".to_owned()
    } else if text::same(name, "write_file") {
        "写入文件".to_owned()
    } else if text::same(name, "edit_file") {
        "编辑文件".to_owned()
    } else if text::same(name, "exec") {
        "运行命令".to_owned()
    } else {
        let mut r = "执行 ".to_owned();
        r.append(name);
        r
    }
}

/// A tool call that has begun.
pub open spec fn begun_tool(
    turn_id: RequestIdView,
    call_id: Option<Seq<char>>,
    name: Seq<char>,
    round: usize,
    now: u64,
) -> ToolView {
    ToolView {
        turn_id,
        call_id,
        name,
        heading: heading_of(name),
        round,
        status: ToolStatus::Running,
        output: Seq::empty(),
        expanded: None,
        started_at: now,
        finished_at: None,
        duration_ms: None,
    }
}

/// The message of a tool call.
pub open spec fn tool_ui(id: u64, tool: ToolView, now: u64) -> UiMessageView {
    UiMessageView {
        id,
        role: Role::Tool,
        kind: KindView::Tool(tool),
        created_at: now,
        token_usage: None,
        content_version: 0,
        turn_id: None,
    }
}

/// The terminal with a tool call that has begun.
pub open spec fn with_tool(
    t: TuiView,
    turn_id: RequestIdView,
    call_id: Option<Seq<char>>,
    name: Seq<char>,
    round: usize,
    now: u64,
) -> TuiView {
    with_message(
        t,
        tool_ui(t.next_message_id, begun_tool(turn_id, call_id, name, round, now), now),
    )
}

/// A message is a tool call that runs, and the one that is meant: by its identifier where
/// there is one, else by its name.
pub open spec fn is_running_tool(
    m: UiMessageView,
    turn_id: RequestIdView,
    call_id: Option<Seq<char>>,
    name: Seq<char>,
) -> bool {
    match m.kind {
        KindView::Tool(tool) => tool.turn_id == turn_id && tool.status == ToolStatus::Running && (
        match call_id {
            Some(id) => tool.call_id == Some(id),
            None => tool.name == name,
        }),
        KindView::Text(_) => false,
    }
}

/// Position of the last message that is the tool call that is meant, among the first `n`.
pub open spec fn last_tool(
    v: Seq<UiMessageView>,
    n: int,
    turn_id: RequestIdView,
    call_id: Option<Seq<char>>,
    name: Seq<char>,
) -> Option<int>
    decreases n,
{
    if n <= 0 {
        None
    } else if is_running_tool(v[n - 1], turn_id, call_id, name) {
        Some(n - 1)
    } else {
        last_tool(v, n - 1, turn_id, call_id, name)
    }
}

/// A tool call that has ended.
pub open spec fn ended_tool(
    tool: ToolView,
    output: Seq<char>,
    success: bool,
    duration_ms: u64,
    now: u64,
) -> ToolView {
    ToolView {
        output: text::lines(output),
        status: if success {
            ToolStatus::Done
        } else {
            ToolStatus::Failed
        },
        finished_at: Some(now),
        duration_ms: Some(duration_ms),
        ..tool
    }
}

/// The message of a tool call once the call has ended.
pub open spec fn ended_ui(
    m: UiMessageView,
    output: Seq<char>,
    success: bool,
    duration_ms: u64,
    now: u64,
) -> UiMessageView {
    UiMessageView {
        kind: KindView::Tool(ended_tool(m.kind->Tool_0, output, success, duration_ms, now)),
        content_version: after(m.content_version),
        ..m
    }
}

/// The terminal once a tool call has ended. One whose beginning was not seen is put there.
pub open spec fn with_tool_ended(
    t: TuiView,
    turn_id: RequestIdView,
    call_id: Option<Seq<char>>,
    name: Seq<char>,
    output: Seq<char>,
    success: bool,
    duration_ms: u64,
    now: u64,
) -> TuiView {
    match last_tool(t.messages, t.messages.len() as int, turn_id, call_id, name) {
        Some(at) => TuiView {
            messages: t.messages.update(
                at,
                ended_ui(t.messages[at], output, success, duration_ms, now),
            ),
            ..t
        },
        None => {
            let s = with_tool(t, turn_id, call_id, name, 0, now);
            TuiView {
                messages: s.messages.update(
                    s.messages.len() - 1,
                    ended_ui(s.messages.last(), output, success, duration_ms, now),
                ),
                ..s
            }
        },
    }
}

/// Position of the last message of the assistant in a turn, among the first `n`.
pub open spec fn last_answer(v: Seq<UiMessageView>, n: int, turn_id: RequestIdView) -> Option<int>
    decreases n,
{
    if n <= 0 {
        None
    } else if v[n - 1].role == Role::Assistant && v[n - 1].turn_id == Some(turn_id) {
        Some(n - 1)
    } else {
        last_answer(v, n - 1, turn_id)
    }
}

/// The terminal with more of the answer of a turn: it goes on where it is, or begins.
pub open spec fn with_answer(t: TuiView, turn_id: RequestIdView, delta: Seq<char>, now: u64) -> TuiView {
    match last_answer(t.messages, t.messages.len() as int, turn_id) {
        Some(at) => match t.messages[at].kind {
            KindView::Text(content) => TuiView {
                messages: t.messages.update(
                    at,
                    UiMessageView {
                        kind: KindView::Text(content + delta),
                        content_version: after(t.messages[at].content_version),
                        ..t.messages[at]
                    },
                ),
                ..t
            },
            KindView::Tool(_) => with_text(t, Role::Assistant, delta, Some(turn_id), now),
        },
        None => with_text(t, Role::Assistant, delta, Some(turn_id), now),
    }
}

/// Position of the last message of the user, among the first `n`.
pub open spec fn last_question(v: Seq<UiMessageView>, n: int) -> Option<u64>
    decreases n,
{
    if n <= 0 {
        None
    } else if v[n - 1].role == Role::User {
        Some(v[n - 1].id)
    } else {
        last_question(v, n - 1)
    }
}

/// The lines that were typed, with one more; the oldest make room.
pub open spec fn remembered(history: Seq<Seq<char>>, line: Seq<char>) -> Seq<Seq<char>> {
    let all = history.push(line);
    if all.len() > MAX_INPUT_HISTORY {
        all.drop_first()
    } else {
        all
    }
}

/// The terminal after a line was typed: a blank one and one that repeats the last are not
/// remembered.
pub open spec fn with_history(t: TuiView, line: Seq<char>) -> TuiView {
    if text::blank(line) || (t.input_history.len() > 0 && t.input_history.last() == line) {
        t
    } else {
        TuiView {
            input_history: remembered(t.input_history, line),
            history_cursor: None,
            ..t
        }
    }
}

/// The line that is edited, with another text.
pub open spec fn typed(s: Seq<char>) -> EditorView {
    EditorView { text: s, cursor: s.len() as int }
}

/// The terminal with the line that was typed before the one that is shown.
pub open spec fn one_back(t: TuiView) -> TuiView {
    let from = match t.history_cursor {
        Some(n) => n as int,
        None => t.input_history.len() as int,
    };
    let at = if from > 0 {
        from - 1
    } else {
        0
    };
    if at < t.input_history.len() {
        TuiView {
            input: typed(t.input_history[at]),
            history_cursor: Some(at as usize),
            ..t
        }
    } else {
        t
    }
}

/// The terminal with the line that was typed after the one that is shown.
pub open spec fn one_on(t: TuiView) -> TuiView {
    match t.history_cursor {
        None => t,
        Some(n) => if n + 1 < t.input_history.len() {
            TuiView {
                input: typed(t.input_history[n + 1]),
                history_cursor: Some((n + 1) as usize),
                ..t
            }
        } else {
            TuiView { input: typed(Seq::empty()), history_cursor: None, ..t }
        },
    }
}

/// What goes on over all: a question first, then the busiest turn.
pub open spec fn overall(t: TuiView) -> ActivityPhase {
    let some = |p: ActivityPhase| t.turn_phases.contains_value(p);
    if t.pending_approvals.len() > 0 {
        ActivityPhase::WaitingApproval
    } else if some(ActivityPhase::RunningTool) {
        ActivityPhase::RunningTool
    } else if some(ActivityPhase::Streaming) {
        ActivityPhase::Streaming
    } else if some(ActivityPhase::WaitingModel) {
        ActivityPhase::WaitingModel
    } else if some(ActivityPhase::Recovering) {
        ActivityPhase::Recovering
    } else {
        ActivityPhase::Idle
    }
}

/// The terminal after the reader went up by some lines, or down.
pub open spec fn scrolled(t: TuiView, lines: int) -> TuiView {
    let s = TuiView { preserve_transcript_start: None, preserve_message_id: None, ..t };
    if lines > 0 {
        TuiView {
            scroll: if t.scroll + lines > usize::MAX {
                usize::MAX
            } else {
                (t.scroll + lines) as usize
            },
            follow_bottom: false,
            ..s
        }
    } else {
        let left = if t.scroll + lines < 0 {
            0usize
        } else {
            (t.scroll + lines) as usize
        };
        TuiView {
            scroll: left,
            follow_bottom: left == 0,
            unread_messages: if left == 0 {
                0
            } else {
                t.unread_messages
            },
            ..s
        }
    }
}

/// The terminal after the reader went to the beginning.
pub open spec fn at_top(t: TuiView) -> TuiView {
    TuiView {
        preserve_transcript_start: None,
        preserve_message_id: None,
        scroll: usize::MAX,
        follow_bottom: false,
        ..t
    }
}

/// The terminal after the reader went to the end.
pub open spec fn at_bottom(t: TuiView) -> TuiView {
    TuiView {
        preserve_transcript_start: None,
        preserve_message_id: None,
        scroll: 0,
        follow_bottom: true,
        unread_messages: 0,
        ..t
    }
}

/// The terminal after the details of the tools were opened or closed. What is shown stays
/// where it is.
pub open spec fn toggled(t: TuiView) -> TuiView {
    TuiView {
        preserve_transcript_start: Some(t.transcript_start),
        preserve_message_id: last_question(t.messages, t.messages.len() as int),
        follow_bottom: false,
        show_tools: !t.show_tools,
        status: if !t.show_tools {
            "工具详情已在原对话中展开"@
        } else {
            "工具调用已折叠"@
        },
        ..t
    }
}

/// The terminal that is about to close.
pub open spec fn closing(t: TuiView) -> TuiView {
    TuiView { should_quit: true, status: "再见"@, ..t }
}

/// The number of the command that is chosen of so many.
pub open spec fn chosen(t: TuiView, count: int) -> Option<int> {
    if count == 0 {
        None
    } else if t.slash_selection < count {
        Some(t.slash_selection as int)
    } else {
        Some(count - 1)
    }
}

proof fn lemma_phase_update(v: Seq<(RequestId, ActivityPhase)>, i: int, e: (RequestId, ActivityPhase))
    requires
        0 <= i < v.len(),
        v[i].0@ == e.0@,
        forall|k: int| i < k < v.len() ==> (#[trigger] v[k]).0@ != e.0@,
    ensures
        phase_map(v.update(i, e)) == phase_map(v).insert(e.0@, e.1),
    decreases v.len(),
{
    let w = v.update(i, e);
    if i == v.len() - 1 {
        assert(w.drop_last() =~= v.drop_last());
        assert(phase_map(w) =~= phase_map(v).insert(e.0@, e.1));
    } else {
        assert(w.drop_last() =~= v.drop_last().update(i, e));
        assert forall|k: int| i < k < v.drop_last().len() implies (
        #[trigger] v.drop_last()[k]).0@ != e.0@ by {
            assert(v.drop_last()[k] == v[k]);
        }
        lemma_phase_update(v.drop_last(), i, e);
        assert(w.last() == v.last());
        assert(v.last().0@ != e.0@);
        assert(phase_map(w) =~= phase_map(v).insert(e.0@, e.1));
    }
}

proof fn lemma_phase_dom(v: Seq<(RequestId, ActivityPhase)>, id: RequestIdView)
    ensures
        phase_map(v).dom().contains(id) <==> exists|i: int|
            0 <= i < v.len() && (#[trigger] v[i]).0@ == id,
    decreases v.len(),
{
    if v.len() > 0 {
        let front = v.drop_last();
        lemma_phase_dom(front, id);
        if v.last().0@ == id {
            assert(v[v.len() - 1].0@ == id);
        } else {
            if exists|i: int| 0 <= i < v.len() && (#[trigger] v[i]).0@ == id {
                let i = choose|i: int| 0 <= i < v.len() && (#[trigger] v[i]).0@ == id;
                assert(front[i] == v[i]);
            }
            if phase_map(front).dom().contains(id) {
                let i = choose|i: int| 0 <= i < front.len() && (#[trigger] front[i]).0@ == id;
                assert(v[i].0@ == id);
            }
        }
    }
}

proof fn lemma_phase_at(v: Seq<(RequestId, ActivityPhase)>, i: int)
    requires
        0 <= i < v.len(),
        phases_differ(v),
    ensures
        phase_map(v).dom().contains(v[i].0@),
        phase_map(v)[v[i].0@] == v[i].1,
    decreases v.len(),
{
    if i < v.len() - 1 {
        let front = v.drop_last();
        assert forall|a: int, b: int| 0 <= a < b < front.len() implies (#[trigger] front[a]).0@
            != (#[trigger] front[b]).0@ by {
            assert(v[a].0@ != v[b].0@);
        }
        lemma_phase_at(front, i);
        assert(v[i].0@ != v[v.len() - 1].0@);
    }
}

/// No turn has two entries.
pub open spec fn phases_differ(v: Seq<(RequestId, ActivityPhase)>) -> bool {
    forall|i: int, k: int| 0 <= i < k < v.len() ==> (#[trigger] v[i]).0@ != (#[trigger] v[k]).0@
}

proof fn lemma_phase_remove(v: Seq<(RequestId, ActivityPhase)>, i: int)
    requires
        0 <= i < v.len(),
        phases_differ(v),
    ensures
        phase_map(v.remove(i)) == phase_map(v).remove(v[i].0@),
        phases_differ(v.remove(i)),
    decreases v.len(),
{
    let id = v[i].0@;
    let front = v.drop_last();
    if i == v.len() - 1 {
        assert(v.remove(i) =~= front);
        lemma_phase_dom(front, id);
        assert(phase_map(front) =~= phase_map(v).remove(id));
    } else {
        assert(v.remove(i) =~= front.remove(i).push(v.last()));
        assert(v.remove(i).drop_last() =~= front.remove(i));
        lemma_phase_remove(front, i);
        assert(v.last().0@ != id);
        assert(phase_map(v.remove(i)) =~= phase_map(v).remove(id));
    }
}

fn has_phase(v: &Vec<(RequestId, ActivityPhase)>, phase: ActivityPhase) -> (r: bool)
    requires
        phases_differ(v@),
    ensures
        r == phase_map(v@).contains_value(phase),
{
    let mut i: usize = 0;
    while i < v.len()
        invariant
            i <= v@.len(),
            phases_differ(v@),
            forall|k: int| 0 <= k < i ==> (#[trigger] v@[k]).1 != phase,
        decreases v@.len() - i,
    {
        if v[i].1 == phase {
            proof {
                lemma_phase_at(v@, i as int);
            }
            return true;
        }
        i = i + 1;
    }
    proof {
        if phase_map(v@).contains_value(phase) {
            let id = choose|id: RequestIdView|
                #[trigger] phase_map(v@).dom().contains(id) && phase_map(v@)[id] == phase;
            lemma_phase_dom(v@, id);
            let k = choose|k: int| 0 <= k < v@.len() && (#[trigger] v@[k]).0@ == id;
            lemma_phase_at(v@, k);
        }
    }
    false
}

impl TuiState {
    /// No turn has two entries, and there is a place after the chosen command.
    pub open spec fn wf(self) -> bool {
        &&& phases_differ(self.turn_phases@)
        &&& self.slash_selection < usize::MAX
    }

    /// The terminal when it joins a session.
    pub fn from_snapshot(snapshot: RecoverySnapshot, around: Surroundings, now: u64) -> (r: Self)
        ensures
            r.wf(),
            r@ == joined(snapshot@, around, now),
    {
        let ghost s = snapshot@;
        let ghost where_ = around;
        let status = if snapshot.active_requests.len() > 0 {
            "正在恢复活动请求".to_owned()
        } else if snapshot.pending_approvals.len() > 0 {
            "等待审批".to_owned()
        } else {
            "就绪".to_owned()
        };
        let count: u64 = snapshot.messages.len() as u64;
        let turn_phases = recovering_phases(&snapshot.active_requests);
        let r = TuiState {
            session_id: snapshot.session_id,
            messages: show_messages(snapshot.messages, now),
            next_message_id: count.saturating_add(1),
            input: InputEditor::new(),
            input_history: Vec::new(),
            history_cursor: None,
            active_turns: Vec::new(),
            recovery_active_requests: snapshot.active_requests,
            queued_count: 0,
            pending_approvals: snapshot.pending_approvals,
            approval_scroll: 0,
            status,
            should_quit: false,
            scroll: 0,
            follow_bottom: true,
            unread_messages: 0,
            transcript_start: 0,
            preserve_transcript_start: None,
            preserve_message_id: None,
            show_tools: false,
            show_help: false,
            turn_phases,
            animation_tick: 0,
            workspace: around.workspace,
            web_url: around.web_url,
            theme_mode: around.theme_mode,
            resume_choices: Vec::new(),
            slash_selection: 0,
        };
        assert(r@ =~= joined(s, where_, now));
        r
    }

    /// Changes to another session. Its messages are numbered from the start again, so
    /// nothing that was drawn of the one before is kept in `cache`.
    pub fn replace_snapshot(
        &mut self,
        snapshot: RecoverySnapshot,
        cache: &mut view::RenderCache,
        now: u64,
    )
        requires
            old(self).wf(),
        ensures
            final(self).wf(),
            final(self)@ == changed(old(self)@, snapshot@, now),
            final(cache).wf(),
            final(cache)@ == Map::<view::RenderCacheKey, Seq<Seq<view::Cell>>>::empty(),
    {
        cache.clear();
        let ghost s = snapshot@;
        self.session_id = snapshot.session_id;
        self.messages = show_messages(snapshot.messages, now);
        self.next_message_id = (self.messages.len() as u64).saturating_add(1);
        self.active_turns = Vec::new();
        self.turn_phases = recovering_phases(&snapshot.active_requests);
        self.recovery_active_requests = snapshot.active_requests;
        self.pending_approvals = snapshot.pending_approvals;
        self.approval_scroll = 0;
        self.scroll = 0;
        self.follow_bottom = true;
        self.unread_messages = 0;
        self.transcript_start = 0;
        self.preserve_transcript_start = None;
        self.preserve_message_id = None;
        self.show_help = false;
        self.animation_tick = 0;
        self.resume_choices = Vec::new();
        self.slash_selection = 0;
        assert(self@ =~= changed(old(self)@, s, now));
    }

    fn push_message(&mut self, message: UiMessage)
        requires
            old(self).wf(),
            message.id == old(self).next_message_id,
        ensures
            final(self).wf(),
            final(self)@ == with_message(old(self)@, message@),
    {
        if !self.follow_bottom {
            self.unread_messages = self.unread_messages.saturating_add(1);
        }
        let ghost before = ui_views(self.messages@);
        self.messages.push(message);
        assert(ui_views(self.messages@) =~= before.push(message@));
        self.next_message_id = self.next_message_id.saturating_add(1);
        assert(self@ =~= with_message(old(self)@, message@));
    }

    /// Adds a text to the transcript, for a turn or for none.
    pub fn push_text_for_turn(
        &mut self,
        role: Role,
        content: String,
        turn_id: Option<RequestId>,
        now: u64,
    )
        requires
            old(self).wf(),
        ensures
            final(self).wf(),
            final(self)@ == with_text(old(self)@, role, content@, opt_id(turn_id), now),
    {
        let message = UiMessage {
            id: self.next_message_id,
            role,
            kind: UiMessageKind::Text(content),
            created_at: now,
            token_usage: None,
            content_version: 0,
            turn_id,
        };
        self.push_message(message);
    }

    /// Adds a text to the transcript.
    pub fn push_text(&mut self, role: Role, content: String, now: u64)
        requires
            old(self).wf(),
        ensures
            final(self).wf(),
            final(self)@ == with_text(old(self)@, role, content@, None, now),
    {
        self.push_text_for_turn(role, content, None, now);
    }

    /// Adds what the user said, and goes to the end.
    pub fn push_user(&mut self, content: String, now: u64)
        requires
            old(self).wf(),
        ensures
            final(self).wf(),
            final(self)@ == (TuiView {
                scroll: 0,
                follow_bottom: true,
                unread_messages: 0,
                ..with_text(old(self)@, Role::User, content@, None, now)
            }),
    {
        self.push_text(Role::User, content, now);
        self.scroll = 0;
        self.follow_bottom = true;
        self.unread_messages = 0;
    }

    /// Remembers a line that was typed.
    pub fn record_history(&mut self, input: &str)
        requires
            old(self).wf(),
        ensures
            final(self).wf(),
            final(self)@ == with_history(old(self)@, input@),
    {
        let n: usize = self.input_history.len();
        if text::is_blank(input) {
            return;
        }
        if n > 0 && text::same(self.input_history[n - 1].as_str(), input) {
            assert(text::views(self.input_history@).last() == input@);
            return;
        }
        let ghost before = text::views(self.input_history@);
        if n > 0 {
            assert(before.last() == self.input_history@[n - 1]@);
        }
        self.input_history.push(input.to_owned());
        assert(text::views(self.input_history@) =~= before.push(input@));
        if self.input_history.len() > MAX_INPUT_HISTORY {
            self.input_history.remove(0);
            assert(text::views(self.input_history@) =~= before.push(input@).drop_first());
        }
        self.history_cursor = None;
        assert(self@ =~= with_history(old(self)@, input@));
    }

    /// Shows the line that was typed before.
    pub fn history_previous(&mut self)
        requires
            old(self).wf(),
        ensures
            final(self).wf(),
            final(self)@ == one_back(old(self)@),
    {
        let from: usize = match self.history_cursor {
            Some(n) => n,
            None => self.input_history.len(),
        };
        let at: usize = from.saturating_sub(1);
        if at < self.input_history.len() {
            let line = self.input_history[at].clone();
            self.input.replace(line.as_str());
            self.history_cursor = Some(at);
        }
    }

    /// Shows the line that was typed after.
    pub fn history_next(&mut self)
        requires
            old(self).wf(),
        ensures
            final(self).wf(),
            final(self)@ == one_on(old(self)@),
    {
        let at: usize = match self.history_cursor {
            Some(n) => n,
            None => return,
        };
        if at < self.input_history.len() && self.input_history.len() - at > 1 {
            let line = self.input_history[at + 1].clone();
            self.input.replace(line.as_str());
            self.history_cursor = Some(at + 1);
        } else {
            self.input.clear();
            self.history_cursor = None;
        }
    }

    fn find_answer(&self, turn_id: &RequestId) -> (r: Option<usize>)
        ensures
            match r {
                Some(i) => i < self.messages@.len() && last_answer(
                    self@.messages,
                    self@.messages.len() as int,
                    turn_id@,
                ) == Some(i as int),
                None => last_answer(
                    self@.messages,
                    self@.messages.len() as int,
                    turn_id@,
                ) is None,
            },
    {
        let ghost all = self@.messages;
        let mut n: usize = self.messages.len();
        while n > 0
            invariant
                n <= self.messages@.len(),
                all == ui_views(self.messages@),
                last_answer(all, all.len() as int, turn_id@) == last_answer(
                    all,
                    n as int,
                    turn_id@,
                ),
            decreases n,
        {
            assert(all[n - 1] == self.messages@[n - 1]@);
            if self.messages[n - 1].role == Role::Assistant {
                if let Some(id) = &self.messages[n - 1].turn_id {
                    if id.same(turn_id) {
                        return Some(n - 1);
                    }
                }
            }
            n = n - 1;
        }
        None
    }

    /// Adds to the answer of a turn.
    pub fn append_assistant(&mut self, turn_id: &RequestId, delta: &str, now: u64)
        requires
            old(self).wf(),
        ensures
            final(self).wf(),
            final(self)@ == with_answer(old(self)@, turn_id@, delta@, now),
    {
        if let Some(i) = self.find_answer(turn_id) {
            assert(self@.messages[i as int] == self.messages@[i as int]@);
            let mut message = self.messages[i].clone();
            if let UiMessageKind::Text(content) = message.kind {
                let ghost before = self@.messages;
                let mut content = content;
                content.append(delta);
                message.kind = UiMessageKind::Text(content);
                message.content_version = message.content_version.saturating_add(1);
                let ghost after_ = message@;
                self.messages.set(i, message);
                assert(self@.messages =~= before.update(i as int, after_));
                assert(self@ =~= with_answer(old(self)@, turn_id@, delta@, now));
                return;
            }
        }
        self.push_text_for_turn(
            Role::Assistant,
            delta.to_owned(),
            Some(turn_id.clone()),
            now,
        );
    }

    /// Adds a tool call that begins.
    pub fn start_tool(
        &mut self,
        turn_id: RequestId,
        call_id: Option<String>,
        name: String,
        round: usize,
        now: u64,
    )
        requires
            old(self).wf(),
        ensures
            final(self).wf(),
            final(self)@ == with_tool(
                old(self)@,
                turn_id@,
                json::opt_text(call_id),
                name@,
                round,
                now,
            ),
    {
        let ghost given = begun_tool(turn_id@, json::opt_text(call_id), name@, round, now);
        let tool = UiToolCall {
            turn_id,
            heading: tool_heading(name.as_str()),
            name,
            call_id,
            round,
            status: ToolStatus::Running,
            output: Vec::new(),
            expanded: None,
            started_at: now,
            finished_at: None,
            duration_ms: None,
        };
        assert(tool@.output =~= Seq::<Seq<char>>::empty());
        assert(tool@ == given);
        let message = UiMessage {
            id: self.next_message_id,
            role: Role::Tool,
            kind: UiMessageKind::Tool(tool),
            created_at: now,
            token_usage: None,
            content_version: 0,
            turn_id: None,
        };
        self.push_message(message);
    }

    fn find_tool(&self, turn_id: &RequestId, call_id: Option<&str>, name: &str) -> (r: Option<usize>)
        ensures
            match r {
                Some(i) => i < self.messages@.len() && last_tool(
                    self@.messages,
                    self@.messages.len() as int,
                    turn_id@,
                    json::opt_view(call_id),
                    name@,
                ) == Some(i as int) && self.messages@[i as int].kind is Tool,
                None => last_tool(
                    self@.messages,
                    self@.messages.len() as int,
                    turn_id@,
                    json::opt_view(call_id),
                    name@,
                ) is None,
            },
    {
        let ghost all = self@.messages;
        let ghost id = json::opt_view(call_id);
        let mut n: usize = self.messages.len();
        while n > 0
            invariant
                n <= self.messages@.len(),
                all == ui_views(self.messages@),
                id == json::opt_view(call_id),
                last_tool(all, all.len() as int, turn_id@, id, name@) == last_tool(
                    all,
                    n as int,
                    turn_id@,
                    id,
                    name@,
                ),
            decreases n,
        {
            assert(all[n - 1] == self.messages@[n - 1]@);
            if let UiMessageKind::Tool(tool) = &self.messages[n - 1].kind {
                let meant = match call_id {
                    Some(id) => match &tool.call_id {
                        Some(own) => text::same(own.as_str(), id),
                        None => false,
                    },
                    None => text::same(tool.name.as_str(), name),
                };
                if tool.turn_id.same(turn_id) && tool.status == ToolStatus::Running && meant {
                    return Some(n - 1);
                }
            }
            n = n - 1;
        }
        None
    }

    fn end_tool(&mut self, i: usize, output: &str, success: bool, duration_ms: u64, now: u64)
        requires
            old(self).wf(),
            i < old(self).messages@.len(),
            old(self).messages@[i as int].kind is Tool,
        ensures
            final(self).wf(),
            final(self)@ == (TuiView {
                messages: old(self)@.messages.update(
                    i as int,
                    ended_ui(old(self)@.messages[i as int], output@, success, duration_ms, now),
                ),
                ..old(self)@
            }),
    {
        let ghost before = self@.messages;
        let mut message = self.messages[i].clone();
        assert(before[i as int] == self.messages@[i as int]@);
        if let UiMessageKind::Tool(tool) = message.kind {
            let mut tool = tool;
            tool.output = text::split_lines(output);
            tool.status = if success {
                ToolStatus::Done
            } else {
                ToolStatus::Failed
            };
            tool.finished_at = Some(now);
            tool.duration_ms = Some(duration_ms);
            message.kind = UiMessageKind::Tool(tool);
            message.content_version = message.content_version.saturating_add(1);
            assert(message@ == ended_ui(before[i as int], output@, success, duration_ms, now));
            let ghost after_ = message@;
            self.messages.set(i, message);
            assert(self@.messages =~= before.update(i as int, after_));
        }
    }

    /// Ends a tool call; one whose beginning was not seen is put there.
    pub fn finish_tool(
        &mut self,
        turn_id: &RequestId,
        call_id: Option<&str>,
        name: &str,
        output: &str,
        success: bool,
        duration_ms: u64,
        now: u64,
    )
        requires
            old(self).wf(),
        ensures
            final(self).wf(),
            final(self)@ == with_tool_ended(
                old(self)@,
                turn_id@,
                json::opt_view(call_id),
                name@,
                output@,
                success,
                duration_ms,
                now,
            ),
    {
        match self.find_tool(turn_id, call_id, name) {
            Some(i) => self.end_tool(i, output, success, duration_ms, now),
            None => {
                let own_id = match call_id {
                    Some(id) => Some(id.to_owned()),
                    None => None,
                };
                self.start_tool(turn_id.clone(), own_id, name.to_owned(), 0, now);
                let last: usize = self.messages.len() - 1;
                assert(self@.messages.last() == self.messages@[last as int]@);
                self.end_tool(last, output, success, duration_ms, now);
            },
        }
    }

    /// Closes the terminal.
    pub fn request_quit(&mut self)
        requires
            old(self).wf(),
        ensures
            final(self).wf(),
            final(self)@ == closing(old(self)@),
    {
        self.should_quit = true;
        self.status = "再见".to_owned();
    }

    /// Opens or closes the details of the tools.
    pub fn toggle_tool_details(&mut self)
        requires
            old(self).wf(),
        ensures
            final(self).wf(),
            final(self)@ == toggled(old(self)@),
    {
        let ghost all = self@.messages;
        let mut anchor: Option<u64> = None;
        let mut n: usize = self.messages.len();
        while n > 0 && anchor.is_none()
            invariant
                n <= self.messages@.len(),
                all == ui_views(self.messages@),
                match anchor {
                    Some(id) => last_question(all, all.len() as int) == Some(id),
                    None => last_question(all, all.len() as int) == last_question(all, n as int),
                },
            decreases n,
        {
            assert(all[n - 1] == self.messages@[n - 1]@);
            if self.messages[n - 1].role == Role::User {
                anchor = Some(self.messages[n - 1].id);
            }
            n = n - 1;
        }
        self.preserve_transcript_start = Some(self.transcript_start);
        self.preserve_message_id = anchor;
        self.follow_bottom = false;
        self.show_tools = !self.show_tools;
        self.status = if self.show_tools {
            "工具详情已在原对话中展开".to_owned()
        } else {
            "工具调用已折叠".to_owned()
        };
        assert(self@ =~= toggled(old(self)@));
    }

    /// Moves what moves on by one step.
    pub fn advance_animation(&mut self)
        requires
            old(self).wf(),
        ensures
            final(self).wf(),
            final(self)@ == (TuiView {
                animation_tick: if old(self).animation_tick == u64::MAX {
                    0
                } else {
                    (old(self).animation_tick + 1) as u64
                },
                ..old(self)@
            }),
    {
        self.animation_tick = self.animation_tick.wrapping_add(1);
    }

    /// What goes on over all.
    pub fn activity_phase(&self) -> (r: ActivityPhase)
        requires
            self.wf(),
        ensures
            r == overall(self@),
    {
        if self.pending_approvals.len() > 0 {
            ActivityPhase::WaitingApproval
        } else if has_phase(&self.turn_phases, ActivityPhase::RunningTool) {
            ActivityPhase::RunningTool
        } else if has_phase(&self.turn_phases, ActivityPhase::Streaming) {
            ActivityPhase::Streaming
        } else if has_phase(&self.turn_phases, ActivityPhase::WaitingModel) {
            ActivityPhase::WaitingModel
        } else if has_phase(&self.turn_phases, ActivityPhase::Recovering) {
            ActivityPhase::Recovering
        } else {
            ActivityPhase::Idle
        }
    }

    /// Notes what goes on in a turn.
    pub fn set_turn_phase(&mut self, request_id: &RequestId, phase: ActivityPhase)
        requires
            old(self).wf(),
        ensures
            final(self).wf(),
            final(self)@ == (TuiView {
                turn_phases: old(self)@.turn_phases.insert(request_id@, phase),
                ..old(self)@
            }),
    {
        note_phase(&mut self.turn_phases, request_id, phase);
    }

    /// Forgets what goes on in a turn.
    pub fn end_turn_phase(&mut self, request_id: &RequestId)
        requires
            old(self).wf(),
        ensures
            final(self).wf(),
            final(self)@ == (TuiView {
                turn_phases: old(self)@.turn_phases.remove(request_id@),
                ..old(self)@
            }),
    {
        forget_phase(&mut self.turn_phases, request_id);
    }

    /// Goes up by some lines, or down where the number is negative.
    pub fn scroll_by(&mut self, lines: i32)
        requires
            old(self).wf(),
        ensures
            final(self).wf(),
            final(self)@ == scrolled(old(self)@, lines as int),
    {
        self.preserve_transcript_start = None;
        self.preserve_message_id = None;
        if lines > 0 {
            self.scroll = self.scroll.saturating_add(lines as usize);
            self.follow_bottom = false;
        } else {
            let down: usize = (-(lines as i64)) as usize;
            self.scroll = self.scroll.saturating_sub(down);
            self.follow_bottom = self.scroll == 0;
            if self.follow_bottom {
                self.unread_messages = 0;
            }
        }
    }

    /// Goes to the beginning.
    pub fn scroll_to_top(&mut self)
        requires
            old(self).wf(),
        ensures
            final(self).wf(),
            final(self)@ == at_top(old(self)@),
    {
        self.preserve_transcript_start = None;
        self.preserve_message_id = None;
        self.scroll = usize::MAX;
        self.follow_bottom = false;
    }

    /// Goes to the end.
    pub fn scroll_to_bottom(&mut self)
        requires
            old(self).wf(),
        ensures
            final(self).wf(),
            final(self)@ == at_bottom(old(self)@),
    {
        self.preserve_transcript_start = None;
        self.preserve_message_id = None;
        self.scroll = 0;
        self.follow_bottom = true;
        self.unread_messages = 0;
    }

    /// Chooses the command before, of so many; before the first is the last.
    pub fn select_previous_slash(&mut self, count: usize)
        requires
            old(self).wf(),
        ensures
            final(self).wf(),
            final(self)@ == previous_command(old(self)@, count as int),
    {
        if count > 0 {
            self.slash_selection = if self.slash_selection == 0 {
                count - 1
            } else {
                self.slash_selection - 1
            };
        }
    }

    /// Chooses the command after, of so many; after the last is the first.
    pub fn select_next_slash(&mut self, count: usize)
        requires
            old(self).wf(),
        ensures
            final(self).wf(),
            final(self)@ == next_command(old(self)@, count as int),
    {
        if count > 0 {
            self.slash_selection = (self.slash_selection + 1) % count;
        }
    }

    /// The number of the command that is chosen, of so many.
    pub fn selected_slash(&self, count: usize) -> (r: Option<usize>)
        ensures
            match r {
                Some(i) => chosen(self@, count as int) == Some(i as int) && i < count,
                None => chosen(self@, count as int) is None,
            },
    {
        if count == 0 {
            None
        } else if self.slash_selection < count {
            Some(self.slash_selection)
        } else {
            Some(count - 1)
        }
    }

    /// Writes the command that is chosen, of those that fit, into the line.
    pub fn complete_selected_slash(&mut self, completions: &Vec<String>)
        requires
            old(self).wf(),
        ensures
            final(self).wf(),
            final(self)@ == completed(old(self)@, text::views(completions@)),
    {
        if let Some(i) = self.selected_slash(completions.len()) {
            self.input.replace(completions[i].as_str());
            self.slash_selection = 0;
        }
    }

    /// Chooses the first command.
    pub fn reset_slash_selection(&mut self)
        requires
            old(self).wf(),
        ensures
            final(self).wf(),
            final(self)@ == (TuiView { slash_selection: 0, ..old(self)@ }),
    {
        self.slash_selection = 0;
    }
}

/// The terminal with the command before chosen.
pub open spec fn previous_command(t: TuiView, count: int) -> TuiView {
    if count <= 0 {
        t
    } else {
        TuiView {
            slash_selection: if t.slash_selection == 0 {
                (count - 1) as usize
            } else {
                (t.slash_selection - 1) as usize
            },
            ..t
        }
    }
}

/// The terminal with the command after chosen.
pub open spec fn next_command(t: TuiView, count: int) -> TuiView {
    if count <= 0 {
        t
    } else {
        TuiView { slash_selection: ((t.slash_selection + 1) % count) as usize, ..t }
    }
}

/// The terminal with the chosen command in the line.
pub open spec fn completed(t: TuiView, completions: Seq<Seq<char>>) -> TuiView {
    match chosen(t, completions.len() as int) {
        Some(i) => TuiView { input: typed(completions[i]), slash_selection: 0, ..t },
        None => t,
    }
}

/// Lines that were typed are remembered in order, never more than the bound.
pub proof fn law_history_is_bounded(t: TuiView, line: Seq<char>)
    requires
        t.input_history.len() <= MAX_INPUT_HISTORY,
    ensures
        with_history(t, line).input_history.len() <= MAX_INPUT_HISTORY,
        !text::blank(line) ==> with_history(t, line).input_history.last() == line,
{
}

/// Going back after going on, or the other way round, shows the same line again while both
/// lines are remembered.
pub proof fn law_history_goes_both_ways(t: TuiView, n: usize)
    requires
        t.history_cursor == Some(n),
        t.input_history.len() <= MAX_INPUT_HISTORY,
        n + 1 < t.input_history.len(),
        t.input == typed(t.input_history[n as int]),
    ensures
        one_back(one_on(t)) == t,
        one_on(one_back(one_on(t))) == one_on(t),
{
    let on = one_on(t);
    assert(on.history_cursor == Some((n + 1) as usize));
    let back = one_back(on);
    assert(back.history_cursor == Some(n));
    assert(back.input == t.input);
    assert(back =~= t);
}

/// While the reader is at the end nothing counts as unread, and going there leaves nothing
/// unread.
pub proof fn law_nothing_is_unread_at_the_end(t: TuiView, m: UiMessageView)
    ensures
        t.follow_bottom ==> with_message(t, m).unread_messages == t.unread_messages,
        at_bottom(t).unread_messages == 0,
        !t.follow_bottom && t.unread_messages < usize::MAX ==> with_message(t, m).unread_messages
            == t.unread_messages + 1,
{
}

/// A tool call that has begun is the one that is ended, where no later one of the same turn
/// has the same identifier.
pub proof fn law_begun_tool_is_ended(
    t: TuiView,
    turn_id: RequestIdView,
    call_id: Seq<char>,
    name: Seq<char>,
    round: usize,
    output: Seq<char>,
    success: bool,
    duration_ms: u64,
    now: u64,
)
    ensures
        ({
            let begun = with_tool(t, turn_id, Some(call_id), name, round, now);
            let ended = with_tool_ended(
                begun,
                turn_id,
                Some(call_id),
                name,
                output,
                success,
                duration_ms,
                now,
            );
            &&& ended.messages.len() == t.messages.len() + 1
            &&& ended.messages.drop_last() == t.messages
            &&& ended.messages.last().kind is Tool
            &&& ended.messages.last().kind->Tool_0.status != ToolStatus::Running
        }),
{
    let begun = with_tool(t, turn_id, Some(call_id), name, round, now);
    let n = begun.messages.len() as int;
    assert(is_running_tool(begun.messages[n - 1], turn_id, Some(call_id), name));
    assert(last_tool(begun.messages, n, turn_id, Some(call_id), name) == Some(n - 1));
    let ended = with_tool_ended(
        begun,
        turn_id,
        Some(call_id),
        name,
        output,
        success,
        duration_ms,
        now,
    );
    assert(ended.messages.drop_last() =~= t.messages);
}

/// A message is shown at the end, under a number of its own; those before stay as they are.
pub proof fn law_messages_are_shown_at_the_end(
    t: TuiView,
    role: Role,
    content: Seq<char>,
    turn_id: Option<RequestIdView>,
    now: u64,
)
    ensures
        ({
            let after_it = with_text(t, role, content, turn_id, now);
            &&& after_it.messages.len() == t.messages.len() + 1
            &&& forall|i: int|
                0 <= i < t.messages.len() ==> #[trigger] after_it.messages[i] == t.messages[i]
            &&& after_it.messages.last().role == role
            &&& after_it.messages.last().kind == KindView::Text(content)
            &&& after_it.messages.last().turn_id == turn_id
            &&& after_it.messages.last().id == t.next_message_id
            &&& t.next_message_id < u64::MAX ==> after_it.next_message_id == t.next_message_id + 1
            &&& after_it.input == t.input
            &&& after_it.active_turns == t.active_turns
            &&& after_it.pending_approvals == t.pending_approvals
        }),
{
}

/// A piece of an answer goes to the end of the answer of its own turn, or begins one; no
/// other message changes and no text is lost.
pub proof fn law_pieces_go_to_their_answer(
    t: TuiView,
    turn_id: RequestIdView,
    delta: Seq<char>,
    now: u64,
)
    ensures
        ({
            let shown = with_answer(t, turn_id, delta, now);
            match last_answer(t.messages, t.messages.len() as int, turn_id) {
                Some(at) => 0 <= at < t.messages.len() && t.messages[at].role is Assistant
                    && t.messages[at].turn_id == Some(turn_id) && (t.messages[at].kind
                    matches KindView::Text(content) ==> shown.messages.len() == t.messages.len()
                    && shown.messages[at].kind == KindView::Text(content + delta)
                    && shown.messages[at].id == t.messages[at].id && forall|i: int|
                    0 <= i < t.messages.len() && i != at ==> #[trigger] shown.messages[i]
                        == t.messages[i]),
                None => shown.messages.len() == t.messages.len() + 1 && shown.messages.last().kind
                    == KindView::Text(delta) && shown.messages.last().role is Assistant
                    && shown.messages.last().turn_id == Some(turn_id) && forall|i: int|
                    0 <= i < t.messages.len() ==> #[trigger] shown.messages[i] == t.messages[i],
            }
        }),
        last_answer(t.messages, t.messages.len() as int, turn_id) is None <==> forall|i: int|
            0 <= i < t.messages.len() ==> !((#[trigger] t.messages[i]).role is Assistant
                && t.messages[i].turn_id == Some(turn_id)),
{
    lemma_last_answer(t.messages, t.messages.len() as int, turn_id);
}

proof fn lemma_last_answer(v: Seq<UiMessageView>, n: int, turn_id: RequestIdView)
    requires
        0 <= n <= v.len(),
    ensures
        last_answer(v, n, turn_id) matches Some(at) ==> 0 <= at < n && v[at].role is Assistant
            && v[at].turn_id == Some(turn_id) && forall|i: int|
            at < i < n ==> !((#[trigger] v[i]).role is Assistant && v[i].turn_id == Some(turn_id)),
        last_answer(v, n, turn_id) is None <==> forall|i: int|
            0 <= i < n ==> !((#[trigger] v[i]).role is Assistant && v[i].turn_id == Some(turn_id)),
    decreases n,
{
    if n > 0 {
        lemma_last_answer(v, n - 1, turn_id);
    }
}

/// Two pieces of an answer, one after the other, show the same text as both at once.
pub proof fn law_pieces_add_up(
    t: TuiView,
    turn_id: RequestIdView,
    a: Seq<char>,
    b: Seq<char>,
    now: u64,
)
    ensures
        ({
            let twice = with_answer(with_answer(t, turn_id, a, now), turn_id, b, now);
            let once = with_answer(t, turn_id, a + b, now);
            &&& last_answer(t.messages, t.messages.len() as int, turn_id) is None
                ==> twice.messages.len() == once.messages.len() && twice.messages.last().kind
                == once.messages.last().kind
        }),
{
    if last_answer(t.messages, t.messages.len() as int, turn_id) is None {
        let one = with_answer(t, turn_id, a, now);
        lemma_last_answer(one.messages, one.messages.len() as int, turn_id);
        let at = one.messages.len() - 1;
        assert(one.messages[at].role is Assistant && one.messages[at].turn_id == Some(turn_id));
        assert(last_answer(one.messages, one.messages.len() as int, turn_id) == Some(at as int));
    }
}

/// A tool is shown as running under its own name and identifier from when it began; its end
/// sets how it went, what it gave and how long it took, and keeps the rest.
pub proof fn law_tools_are_shown(
    turn_id: RequestIdView,
    call_id: Option<Seq<char>>,
    name: Seq<char>,
    round: usize,
    tool: ToolView,
    output: Seq<char>,
    success: bool,
    duration_ms: u64,
    now: u64,
)
    ensures
        begun_tool(turn_id, call_id, name, round, now).name == name,
        begun_tool(turn_id, call_id, name, round, now).call_id == call_id,
        begun_tool(turn_id, call_id, name, round, now).turn_id == turn_id,
        begun_tool(turn_id, call_id, name, round, now).round == round,
        begun_tool(turn_id, call_id, name, round, now).status is Running,
        begun_tool(turn_id, call_id, name, round, now).started_at == now,
        begun_tool(turn_id, call_id, name, round, now).finished_at is None,
        ended_tool(tool, output, success, duration_ms, now).status is Done <==> success,
        ended_tool(tool, output, success, duration_ms, now).status is Failed <==> !success,
        ended_tool(tool, output, success, duration_ms, now).output == text::lines(output),
        ended_tool(tool, output, success, duration_ms, now).duration_ms == Some(duration_ms),
        ended_tool(tool, output, success, duration_ms, now).finished_at == Some(now),
        ended_tool(tool, output, success, duration_ms, now).name == tool.name,
        ended_tool(tool, output, success, duration_ms, now).call_id == tool.call_id,
        ended_tool(tool, output, success, duration_ms, now).turn_id == tool.turn_id,
        ended_tool(tool, output, success, duration_ms, now).started_at == tool.started_at,
        name.is_suffix_of(heading_of(name)) || name == "read_file"@ || name == "write_file"@ || name
            == "edit_file"@ || name == "exec"@,
{
    let h = heading_of(name);
    if !(name == "read_file"@ || name == "write_file"@ || name == "edit_file"@ || name == "exec"@) {
        assert(h.subrange(h.len() - name.len(), h.len() as int) =~= name);
    }
}

/// The tool that ends is the last of the turn that runs with that identifier; a tool of
/// another turn, or one that ended, is not touched.
pub proof fn law_the_running_tool_ends(
    v: Seq<UiMessageView>,
    turn_id: RequestIdView,
    call_id: Seq<char>,
    name: Seq<char>,
)
    ensures
        last_tool(v, v.len() as int, turn_id, Some(call_id), name) matches Some(at) ==> 0 <= at
            < v.len() && (v[at].kind matches KindView::Tool(tool) && tool.turn_id == turn_id
            && tool.call_id == Some(call_id) && tool.status is Running),
        last_tool(v, v.len() as int, turn_id, Some(call_id), name) is None ==> forall|i: int|
            0 <= i < v.len() ==> ((#[trigger] v[i]).kind matches KindView::Tool(tool)
                ==> tool.turn_id != turn_id || tool.call_id != Some(call_id) || !(
            tool.status is Running)),
{
    lemma_last_tool(v, v.len() as int, turn_id, call_id, name);
}

proof fn lemma_last_tool(
    v: Seq<UiMessageView>,
    n: int,
    turn_id: RequestIdView,
    call_id: Seq<char>,
    name: Seq<char>,
)
    requires
        0 <= n <= v.len(),
    ensures
        last_tool(v, n, turn_id, Some(call_id), name) matches Some(at) ==> 0 <= at < n && (
        v[at].kind matches KindView::Tool(tool) && tool.turn_id == turn_id && tool.call_id == Some(
            call_id,
        ) && tool.status is Running),
        last_tool(v, n, turn_id, Some(call_id), name) is None ==> forall|i: int|
            0 <= i < n ==> ((#[trigger] v[i]).kind matches KindView::Tool(tool) ==> tool.turn_id
                != turn_id || tool.call_id != Some(call_id) || !(tool.status is Running)),
    decreases n,
{
    if n > 0 {
        lemma_last_tool(v, n - 1, turn_id, call_id, name);
    }
}

/// A conversation that is loaded is shown message by message and in order: what has text,
/// with the role it has.
pub proof fn law_conversations_are_shown(v: Seq<MessageView>, now: u64)
    ensures
        shown_messages(v, now).len() <= v.len(),
        (forall|i: int| 0 <= i < v.len() ==> (#[trigger] v[i]).content is Some) ==> shown_messages(
            v,
            now,
        ).len() == v.len() && forall|i: int|
            0 <= i < v.len() ==> (#[trigger] shown_messages(v, now)[i]).kind == KindView::Text(
                v[i].content->0,
            ) && shown_messages(v, now)[i].role == v[i].role,
    decreases v.len(),
{
    if v.len() > 0 {
        let w = v.drop_last();
        law_conversations_are_shown(w, now);
        if forall|i: int| 0 <= i < v.len() ==> (#[trigger] v[i]).content is Some {
            assert(v[v.len() - 1].content is Some);
            assert forall|i: int| 0 <= i < w.len() implies (#[trigger] w[i]).content is Some by {
                assert(v[i] == w[i]);
            }
            assert forall|i: int| 0 <= i < v.len() implies (#[trigger] shown_messages(
                v,
                now,
            )[i]).kind == KindView::Text(v[i].content->0) && shown_messages(v, now)[i].role
                == v[i].role by {
                if i < w.len() {
                    assert(shown_messages(v, now)[i] == shown_messages(w, now)[i]);
                    assert(w[i] == v[i]);
                }
            }
        }
    }
}

/// Another session is shown with its own messages, questions and requests; the line that was
/// typed, and what was typed before, stay.
pub proof fn law_changing_the_session(t: TuiView, s: SnapshotView, around: Surroundings, now: u64)
    ensures
        changed(t, s, now).session_id == s.session_id,
        changed(t, s, now).messages == shown_messages(s.messages, now),
        changed(t, s, now).pending_approvals == s.pending_approvals,
        changed(t, s, now).recovery_active_requests == s.active_requests,
        changed(t, s, now).active_turns.len() == 0,
        changed(t, s, now).input == t.input,
        changed(t, s, now).input_history == t.input_history,
        changed(t, s, now).theme_mode == t.theme_mode,
        changed(t, s, now).follow_bottom && changed(t, s, now).scroll == 0,
        joined(s, around, now).session_id == s.session_id,
        joined(s, around, now).messages == shown_messages(s.messages, now),
        joined(s, around, now).pending_approvals == s.pending_approvals,
        joined(s, around, now).recovery_active_requests == s.active_requests,
        joined(s, around, now).input.text.len() == 0,
        joined(s, around, now).workspace == around.workspace@,
        !joined(s, around, now).should_quit,
{
}

/// The requests that were at work are recovered, and no others.
pub proof fn law_requests_at_work_are_recovered(ids: Seq<RequestIdView>, id: RequestIdView)
    ensures
        recovering(ids).dom().contains(id) <==> ids.contains(id),
        recovering(ids).dom().contains(id) ==> recovering(ids)[id] is Recovering,
    decreases ids.len(),
{
    if ids.len() > 0 {
        let w = ids.drop_last();
        law_requests_at_work_are_recovered(w, id);
        if w.contains(id) {
            let i = choose|i: int| 0 <= i < w.len() && w[i] == id;
            assert(ids[i] == id);
        }
        if ids.contains(id) {
            let i = choose|i: int| 0 <= i < ids.len() && ids[i] == id;
            if i < w.len() {
                assert(w[i] == id);
            }
        }
        assert(ids[ids.len() - 1] == ids.last());
    }
}

/// A line is remembered once even when it is sent again at once; a line that says nothing is
/// not.
pub proof fn law_lines_are_remembered(t: TuiView, line: Seq<char>)
    ensures
        text::blank(line) ==> with_history(t, line) == t,
        with_history(with_history(t, line), line) == with_history(t, line),
        !text::blank(line) && t.input_history.len() < MAX_INPUT_HISTORY && (t.input_history.len()
            == 0 || t.input_history.last() != line) ==> with_history(t, line).input_history
            == t.input_history.push(line),
        with_history(t, line).input == t.input,
        with_history(t, line).messages == t.messages,
{
}

/// Going back shows the line before the one that is shown, and at first the last; going on
/// past the last shows an empty line.
pub proof fn law_lines_are_shown_again(t: TuiView)
    ensures
        t.history_cursor is None && t.input_history.len() > 0 && t.input_history.len() <= usize::MAX
            ==> one_back(t).input.text == t.input_history.last() && one_back(t).history_cursor
            == Some((t.input_history.len() - 1) as usize),
        t.history_cursor matches Some(n) ==> 0 < n <= t.input_history.len() ==> one_back(
            t,
        ).input.text == t.input_history[n - 1],
        t.history_cursor matches Some(n) ==> n + 1 < t.input_history.len() ==> one_on(t).input.text
            == t.input_history[n + 1],
        t.history_cursor matches Some(n) ==> n + 1 >= t.input_history.len() ==> one_on(
            t,
        ).input.text.len() == 0 && one_on(t).history_cursor is None,
        t.history_cursor is None ==> one_on(t) == t,
        t.input_history.len() == 0 ==> one_back(t) == t,
        one_back(t).input_history == t.input_history,
        one_on(t).input_history == t.input_history,
{
}

/// While a question waits that is what is told; else a tool that runs, text that comes, a
/// model that is waited for, a request that is recovered, in this order; and else nothing.
pub proof fn law_what_is_going_on(t: TuiView, turn: RequestIdView)
    ensures
        t.pending_approvals.len() > 0 ==> overall(t) is WaitingApproval,
        t.pending_approvals.len() == 0 && t.turn_phases.dom().contains(turn) && t.turn_phases[turn]
            is RunningTool ==> overall(t) is RunningTool,
        t.pending_approvals.len() == 0 && t.turn_phases.dom().contains(turn) && t.turn_phases[turn]
            is Streaming ==> overall(t) is RunningTool || overall(t) is Streaming,
        t.pending_approvals.len() == 0 && t.turn_phases == Map::<RequestIdView, ActivityPhase>::empty()
            ==> overall(t) is Idle,
{
    let p = t.turn_phases;
    if p.dom().contains(turn) {
        assert(p.contains_value(p[turn]));
    }
}

/// Scrolling back leaves the end, and scrolling on comes back to it; only at the end is
/// everything read.
pub proof fn law_scrolling(t: TuiView, lines: int)
    requires
        0 < lines,
        t.scroll + lines <= usize::MAX,
    ensures
        scrolled(t, lines).scroll == t.scroll + lines,
        !scrolled(t, lines).follow_bottom,
        scrolled(scrolled(t, lines), -lines).scroll == t.scroll,
        t.scroll <= lines ==> scrolled(t, -lines).scroll == 0 && scrolled(t, -lines).follow_bottom
            && scrolled(t, -lines).unread_messages == 0,
        t.scroll > lines ==> scrolled(t, -lines).scroll == t.scroll - lines && !scrolled(
            t,
            -lines,
        ).follow_bottom && scrolled(t, -lines).unread_messages == t.unread_messages,
        scrolled(t, lines).messages == t.messages,
        scrolled(t, lines).input == t.input,
        at_bottom(t).scroll == 0 && at_bottom(t).follow_bottom,
        !at_top(t).follow_bottom,
{
}

/// Showing the tools twice shows what was shown before.
pub proof fn law_tools_are_shown_and_hidden(t: TuiView)
    ensures
        toggled(t).show_tools == !t.show_tools,
        toggled(toggled(t)).show_tools == t.show_tools,
        toggled(t).messages == t.messages,
        toggled(t).input == t.input,
        closing(t).should_quit,
        closing(t).messages == t.messages,
{
}

/// Choosing among commands goes round: on from the last comes the first, and back from the
/// first the last; going on and back again chooses the same.
pub proof fn law_choosing_goes_round(t: TuiView, count: int)
    requires
        0 < count <= usize::MAX,
        t.slash_selection < count,
    ensures
        chosen(t, count) == Some(t.slash_selection as int),
        next_command(t, count).slash_selection < count,
        previous_command(t, count).slash_selection < count,
        previous_command(next_command(t, count), count).slash_selection == t.slash_selection,
        next_command(previous_command(t, count), count).slash_selection == t.slash_selection,
        t.slash_selection + 1 < count ==> next_command(t, count).slash_selection
            == t.slash_selection + 1,
        t.slash_selection + 1 == count ==> next_command(t, count).slash_selection == 0,
        next_command(t, count).input == t.input,
{
    let n = t.slash_selection as int;
    if n + 1 == count {
        assert((n + 1) % count == 0) by (nonlinear_arith)
            requires
                n + 1 == count,
                count > 0,
        ;
    } else {
        assert((n + 1) % count == n + 1) by (nonlinear_arith)
            requires
                0 <= n + 1 < count,
        ;
    }
    let p = previous_command(t, count);
    if n == 0 {
        assert(p.slash_selection == count - 1);
        assert(((count - 1) + 1) % count == 0) by (nonlinear_arith)
            requires
                count > 0,
        ;
    } else {
        assert(((n - 1) + 1) % count == n) by (nonlinear_arith)
            requires
                0 <= n < count,
        ;
    }
}

/// Completing puts the chosen command on the line, with the place at its end.
pub proof fn law_completing(t: TuiView, completions: Seq<Seq<char>>)
    requires
        0 < completions.len(),
        t.slash_selection < completions.len(),
    ensures
        completed(t, completions).input.text == completions[t.slash_selection as int],
        completed(t, completions).input.cursor == completions[t.slash_selection as int].len(),
        completed(t, completions).slash_selection == 0,
        completed(t, completions).messages == t.messages,
{
}

/// The theme is the one that is named; without a name that is known it is that of the
/// terminal.
pub proof fn law_themes(setting: Option<Seq<char>>)
    ensures
        setting is None ==> theme_of(setting) is Terminal,
        theme_of(setting) is Dark ==> setting is Some && (text::lower(text::trim(setting->0))
            == "dark"@ || text::lower(text::trim(setting->0)) == "truecolor"@),
        theme_of(setting) is Light ==> setting is Some && text::lower(text::trim(setting->0))
            == "light"@,
        theme_of(setting) is Terminal && setting is Some ==> text::lower(text::trim(setting->0))
            != "dark"@ && text::lower(text::trim(setting->0)) != "light"@ && text::lower(
            text::trim(setting->0),
        ) != "truecolor"@,
{
}

/// What moves on the screen is what goes on: everything but rest and a question that waits.
pub proof fn law_what_moves(p: ActivityPhase)
    ensures
        p.moves() <==> !(p is Idle) && !(p is WaitingApproval),
{
}

/// A session that is joined is recovered where requests are at work, waits where a question is
/// open, and else is ready: the three are told apart.
pub proof fn law_joining_tells_the_state(s: SnapshotView)
    ensures
        s.active_requests.len() > 0 ==> joining_status(s) == "正在恢复活动请求"@,
        s.active_requests.len() == 0 && s.pending_approvals.len() > 0 ==> joining_status(s)
            == "等待审批"@,
        s.active_requests.len() == 0 && s.pending_approvals.len() == 0 ==> joining_status(s)
            == "就绪"@,
{
}

/// The end of a tool whose beginning was not seen is shown at the end of the transcript, with
/// its output, how it went and how long it took; the messages before stay as they are.
pub proof fn law_unseen_tools_are_shown_ended(
    t: TuiView,
    turn_id: RequestIdView,
    call_id: Option<Seq<char>>,
    name: Seq<char>,
    output: Seq<char>,
    success: bool,
    duration_ms: u64,
    now: u64,
)
    requires
        forall|i: int|
            0 <= i < t.messages.len() ==> !is_running_tool(
                #[trigger] t.messages[i],
                turn_id,
                call_id,
                name,
            ),
    ensures
        ({
            let after = with_tool_ended(
                t,
                turn_id,
                call_id,
                name,
                output,
                success,
                duration_ms,
                now,
            ).messages;
            &&& after.len() == t.messages.len() + 1
            &&& after.drop_last() == t.messages
            &&& after.last().kind matches KindView::Tool(tool)
                && tool.turn_id == turn_id && tool.call_id == call_id && tool.output == text::lines(
                output,
            ) && (success ==> tool.status is Done) && (!success ==> tool.status is Failed)
                && tool.duration_ms == Some(duration_ms) && tool.finished_at == Some(now)
        }),
{
    lemma_no_tool(t.messages, t.messages.len() as int, turn_id, call_id, name);
    let after = with_tool_ended(t, turn_id, call_id, name, output, success, duration_ms, now);
    assert(after.messages.drop_last() =~= t.messages);
}

proof fn lemma_no_tool(
    v: Seq<UiMessageView>,
    n: int,
    turn_id: RequestIdView,
    call_id: Option<Seq<char>>,
    name: Seq<char>,
)
    requires
        0 <= n <= v.len(),
        forall|i: int|
            0 <= i < v.len() ==> !is_running_tool(#[trigger] v[i], turn_id, call_id, name),
    ensures
        last_tool(v, n, turn_id, call_id, name) is None,
    decreases n,
{
    if n > 0 {
        lemma_no_tool(v, n - 1, turn_id, call_id, name);
    }
}

/// Unread messages are counted one by one while the end is out of sight, and not at all while
/// it is in sight.
pub proof fn law_unread_messages_are_counted(t: TuiView, m: UiMessageView)
    ensures
        t.follow_bottom ==> with_message(t, m).unread_messages == t.unread_messages,
        !t.follow_bottom && t.unread_messages < usize::MAX ==> with_message(t, m).unread_messages
            == t.unread_messages + 1,
{
}

} // verus!
