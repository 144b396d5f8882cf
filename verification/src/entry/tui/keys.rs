//! What the terminal does with keys, and with what follows from them.
use vstd::prelude::*;

use crate::daemon::protocol::{RequestId, RequestIdView};
use crate::daemon::sessions;
use crate::daemon::sessions::{SessionInfo, SessionInfoView};
use crate::entry::tui::frames;
use crate::entry::tui::input_editor;
use crate::entry::tui::input_editor::EditorView;
use crate::entry::tui::keybindings;
use crate::entry::tui::keybindings::{KeyCode, KeyEvent, TuiAction};
use crate::entry::tui::view::{Cell, RenderCache, RenderCacheKey};
use crate::entry::tui::{
    ActiveTurn, ActivityPhase, RecoverySnapshot, TuiState, TuiView, TurnView,
};
use crate::json;
use crate::json::{Json, JsonView};
use crate::provider::Role;
use crate::text;

verus! {

/// A command that fits the line: what it would be completed to, and whether the line is it.
#[derive(Debug)]
pub struct CommandChoice {
    pub completion: String,
    pub exact: bool,
}

/// What commands would be completed to.
pub open spec fn completions(v: Seq<CommandChoice>) -> Seq<Seq<char>> {
    Seq::new(v.len(), |i: int| v[i].completion@)
}

/// What is to be done outside the terminal for a key.
#[derive(Debug)]
pub enum KeyStep {
    Done,
    /// Take the runs of `queued_runs` out of the queue, then call `queue_cleared` with the
    /// `removed_count` of the answers.
    ClearQueue,
    /// Ask the turn to stop, then call `cancel_sent`.
    Cancel(RequestId),
    /// Answer the question, then call `answered`.
    Answer { approval_id: String, approved: bool },
    /// Send the line, then call `submitted` or `not_submitted`.
    Submit(String),
}

/// What is to be done outside the terminal.
pub enum StepView {
    Done,
    ClearQueue,
    Cancel(RequestIdView),
    Answer { approval_id: Seq<char>, approved: bool },
    Submit(Seq<char>),
}

impl View for KeyStep {
    type V = StepView;

    open spec fn view(&self) -> StepView {
        match *self {
            KeyStep::Done => StepView::Done,
            KeyStep::ClearQueue => StepView::ClearQueue,
            KeyStep::Cancel(id) => StepView::Cancel(id@),
            KeyStep::Answer { approval_id, approved } => StepView::Answer {
                approval_id: approval_id@,
                approved,
            },
            KeyStep::Submit(s) => StepView::Submit(s@),
        }
    }
}

/// The line begins a command.
pub open spec fn begins_command(s: Seq<char>) -> bool {
    let t = text::trim_start(s);
    t.len() > 0 && t[0] == '/'
}

/// The terminal with another line, and the first command chosen.
pub open spec fn edited(t: TuiView, input: EditorView) -> TuiView {
    TuiView { input, slash_selection: 0, ..t }
}

/// The terminal with the line edited at another place.
pub open spec fn moved(t: TuiView, input: EditorView) -> TuiView {
    TuiView { input, ..t }
}

/// The question page after it was turned.
pub open spec fn question_scrolled(t: TuiView, lines: int) -> TuiView {
    TuiView {
        approval_scroll: if t.approval_scroll + lines < 0 {
            0
        } else if t.approval_scroll + lines > usize::MAX {
            usize::MAX
        } else {
            (t.approval_scroll + lines) as usize
        },
        ..t
    }
}

/// The terminal after the key to close something: the help, the command that is being typed,
/// else the terminal itself.
pub open spec fn escaped(t: TuiView) -> TuiView {
    if t.show_help {
        TuiView { show_help: false, ..t }
    } else if begins_command(t.input.text) {
        edited(t, EditorView { text: Seq::empty(), cursor: 0 })
    } else {
        crate::entry::tui::closing(t)
    }
}

/// The terminal after a key that edits the line, moves in it or moves the transcript; and the
/// line that is to be sent.
pub open spec fn line_pressed(t: TuiView, action: Option<TuiAction>, key: KeyEvent) -> (
    TuiView,
    StepView,
) {
    match action {
        Some(TuiAction::CursorWordLeft) => (
            moved(t, input_editor::word_left(t.input)),
            StepView::Done,
        ),
        Some(TuiAction::CursorWordRight) => (
            moved(t, input_editor::word_right(t.input)),
            StepView::Done,
        ),
        Some(TuiAction::CursorLeft) => (moved(t, input_editor::left(t.input)), StepView::Done),
        Some(TuiAction::CursorRight) => (moved(t, input_editor::right(t.input)), StepView::Done),
        Some(TuiAction::ScrollTop) => (crate::entry::tui::at_top(t), StepView::Done),
        Some(TuiAction::ScrollBottom) => (crate::entry::tui::at_bottom(t), StepView::Done),
        Some(TuiAction::ScrollLineUp) => (crate::entry::tui::scrolled(t, 1), StepView::Done),
        Some(TuiAction::ScrollLineDown) => (crate::entry::tui::scrolled(t, -1), StepView::Done),
        Some(TuiAction::CursorLineStart) => (
            moved(
                t,
                input_editor::to_line_start(t.input),
            ),
            StepView::Done,
        ),
        Some(TuiAction::CursorLineEnd) => (
            moved(
                t,
                input_editor::to_line_end(t.input),
            ),
            StepView::Done,
        ),
        Some(TuiAction::Previous) => (
            if t.input.text.contains('\n') {
                t
            } else {
                crate::entry::tui::one_back(t)
            },
            StepView::Done,
        ),
        Some(TuiAction::Next) => (
            if t.input.text.contains('\n') {
                t
            } else {
                crate::entry::tui::one_on(t)
            },
            StepView::Done,
        ),
        Some(TuiAction::DeleteWordLeft) => (
            edited(
                t,
                input_editor::erased_word(t.input),
            ),
            StepView::Done,
        ),
        Some(TuiAction::Backspace) => (edited(t, input_editor::erased_left(t.input)), StepView::Done),
        Some(TuiAction::Delete) => (edited(t, input_editor::erased_right(t.input)), StepView::Done),
        Some(TuiAction::InsertNewline) => (
            edited(t, input_editor::inserted(t.input, seq!['\n'])),
            StepView::Done,
        ),
        Some(TuiAction::Submit) => if text::blank(t.input.text) {
            (t, StepView::Done)
        } else {
            (
                moved(t, EditorView { text: Seq::empty(), cursor: 0 }),
                StepView::Submit(t.input.text),
            )
        },
        None => match key.code {
            KeyCode::Char(c) => if key.modifiers.control {
                (t, StepView::Done)
            } else {
                (edited(t, input_editor::inserted(t.input, seq![c])), StepView::Done)
            },
            _ => (t, StepView::Done),
        },
        _ => (t, StepView::Done),
    }
}

/// The terminal after a key, and what is to be done outside it. The help hides all else, a
/// question hides the line, and a command that is being typed has keys of its own.
pub open spec fn pressed(t: TuiView, key: KeyEvent, choices: Seq<CommandChoice>) -> (
    TuiView,
    StepView,
) {
    let action = keybindings::first_triggered(keybindings::action_order(), 0, key);
    let asked = t.pending_approvals.len() > 0;
    if action == Some(TuiAction::Escape) {
        (escaped(t), StepView::Done)
    } else if action == Some(TuiAction::ToggleHelp) {
        (TuiView { show_help: !t.show_help, ..t }, StepView::Done)
    } else if t.show_help {
        (t, StepView::Done)
    } else if action == Some(TuiAction::PageUp) {
        (
            if asked {
                question_scrolled(t, -4)
            } else {
                crate::entry::tui::scrolled(t, 8)
            },
            StepView::Done,
        )
    } else if action == Some(TuiAction::PageDown) {
        (
            if asked {
                question_scrolled(t, 4)
            } else {
                crate::entry::tui::scrolled(t, -8)
            },
            StepView::Done,
        )
    } else if action == Some(TuiAction::ToggleToolDetails) {
        (crate::entry::tui::toggled(t), StepView::Done)
    } else if action == Some(TuiAction::ClearInput) {
        (
            TuiView {
                history_cursor: None,
                ..edited(t, EditorView { text: Seq::empty(), cursor: 0 })
            },
            StepView::Done,
        )
    } else if action == Some(TuiAction::ClearQueue) {
        (t, StepView::ClearQueue)
    } else if action == Some(TuiAction::CancelTurn) {
        (
            t,
            if t.active_turns.len() > 0 {
                StepView::Cancel(t.active_turns.last().request_id)
            } else {
                StepView::Done
            },
        )
    } else if asked {
        (
            t,
            match keybindings::decision(key) {
                Some(approved) => StepView::Answer {
                    approval_id: t.pending_approvals[0].id,
                    approved,
                },
                None => StepView::Done,
            },
        )
    } else if choices.len() > 0 && action == Some(TuiAction::Previous) {
        (crate::entry::tui::previous_command(t, choices.len() as int), StepView::Done)
    } else if choices.len() > 0 && action == Some(TuiAction::Next) {
        (crate::entry::tui::next_command(t, choices.len() as int), StepView::Done)
    } else if choices.len() > 0 && action == Some(TuiAction::Complete) {
        (crate::entry::tui::completed(t, completions(choices)), StepView::Done)
    } else if choices.len() > 0 && action == Some(TuiAction::Submit)
        && !choices[crate::entry::tui::chosen(t, choices.len() as int)->0].exact {
        (crate::entry::tui::completed(t, completions(choices)), StepView::Done)
    } else {
        line_pressed(t, action, key)
    }
}

fn completion_texts(choices: &Vec<CommandChoice>) -> (r: Vec<String>)
    ensures
        text::views(r@) == completions(choices@),
{
    let mut out: Vec<String> = Vec::new();
    let mut i: usize = 0;
    while i < choices.len()
        invariant
            i <= choices@.len(),
            out@.len() == i,
            forall|k: int| 0 <= k < i ==> (#[trigger] out@[k])@ == choices@[k].completion@,
        decreases choices@.len() - i,
    {
        out.push(choices[i].completion.clone());
        i = i + 1;
    }
    assert(text::views(out@) =~= completions(choices@));
    out
}

/// The runs that a list of waiting messages names, in order; what names none is left out.
pub open spec fn runs_of(items: Seq<JsonView>) -> Seq<Seq<char>>
    decreases items.len(),
{
    if items.len() == 0 {
        Seq::empty()
    } else {
        let rest = runs_of(items.drop_last());
        match json::str_of(json::at_key(items.last(), "run_id"@)) {
            Some(id) => rest.push(id),
            None => rest,
        }
    }
}

/// The waiting messages that an answer lists.
pub open spec fn listed_items(listed: JsonView) -> Seq<JsonView> {
    match json::at_key(listed, "items"@) {
        JsonView::Array(v) => v,
        _ => Seq::empty(),
    }
}

/// The runs that are to be taken out of the queue, from the answer that lists it.
pub fn queued_runs(listed: &Json) -> (r: Vec<String>)
    ensures
        text::views(r@) == runs_of(listed_items(listed@)),
{
    let mut out: Vec<String> = Vec::new();
    assert(text::views(out@) =~= Seq::<Seq<char>>::empty());
    if let Some(Json::Array(v)) = listed.get("items") {
        proof {
            json::lemma_array_view(*v);
        }
        let ghost all = json::list_view(v@);
        assert(all.take(0) =~= Seq::<JsonView>::empty());
        let mut i: usize = 0;
        while i < v.len()
            invariant
                i <= v@.len(),
                all == json::list_view(v@),
                text::views(out@) == runs_of(all.take(i as int)),
            decreases v@.len() - i,
        {
            proof {
                assert(all.take(i + 1).drop_last() =~= all.take(i as int));
                assert(all.take(i + 1).last() == v@[i as int]@);
            }
            if let Some(id) = v[i].str_at("run_id") {
                let ghost before = text::views(out@);
                out.push(id.to_owned());
                assert(text::views(out@) =~= before.push(id@));
            }
            i = i + 1;
        }
        assert(all.take(i as int) =~= all);
    }
    out
}

/// Counts the messages that wait, from the answer that lists them.
pub fn queued_in(listed: &Json) -> (r: usize)
    ensures
        r == listed_items(listed@).len(),
{
    match listed.get("items") {
        Some(Json::Array(v)) => {
            proof {
                json::lemma_array_view(*v);
            }
            v.len()
        },
        _ => 0,
    }
}

/// Whether the mouse is followed, by the setting.
pub fn mouse_enabled(setting: Option<&str>) -> (r: bool)
    ensures
        r == (setting is Some && setting->0@ == "1"@),
{
    match setting {
        Some(s) => text::same(s, "1"),
        None => false,
    }
}

/// How many of the answers say that a message was taken out of the queue.
pub open spec fn removals(answers: Seq<JsonView>) -> nat
    decreases answers.len(),
{
    if answers.len() == 0 {
        0
    } else {
        removals(answers.drop_last()) + if json::at_key(answers.last(), "cancelled"@)
            == JsonView::Bool(true) {
            1nat
        } else {
            0nat
        }
    }
}

/// Counts the messages that were taken out of the queue, from the answers for each.
pub fn removed_count(answers: &Vec<Json>) -> (r: usize)
    ensures
        r == removals(json::list_view(answers@)),
{
    let ghost all = json::list_view(answers@);
    let mut n: usize = 0;
    let mut i: usize = 0;
    assert(all.take(0) =~= Seq::<JsonView>::empty());
    while i < answers.len()
        invariant
            i <= answers@.len(),
            all == json::list_view(answers@),
            n == removals(all.take(i as int)),
            n <= i,
        decreases answers@.len() - i,
    {
        proof {
            assert(all.take(i + 1).drop_last() =~= all.take(i as int));
            assert(all.take(i + 1).last() == answers@[i as int]@);
        }
        if let Some(Json::Bool(true)) = answers[i].get("cancelled") {
            n = n + 1;
        }
        i = i + 1;
    }
    assert(all.take(i as int) =~= all);
    n
}

impl TuiState {
    fn escape(&mut self)
        requires
            old(self).wf(),
        ensures
            final(self).wf(),
            final(self)@ == escaped(old(self)@),
    {
        if self.show_help {
            self.show_help = false;
            return;
        }
        let line = text::chars_of(text::trim_start_text(self.input.text().as_str()).as_str());
        if line.len() > 0 && line[0] == '/' {
            self.input.clear();
            self.reset_slash_selection();
        } else {
            self.request_quit();
        }
    }

    fn scroll_question(&mut self, up: bool, lines: usize)
        requires
            old(self).wf(),
            lines <= 4,
        ensures
            final(self).wf(),
            final(self)@ == question_scrolled(
                old(self)@,
                if up {
                    -lines
                } else {
                    lines as int
                },
            ),
    {
        self.approval_scroll = if up {
            self.approval_scroll.saturating_sub(lines)
        } else {
            self.approval_scroll.saturating_add(lines)
        };
    }

    fn press_in_line(&mut self, action: Option<TuiAction>, key: KeyEvent) -> (r: KeyStep)
        requires
            old(self).wf(),
        ensures
            final(self).wf(),
            (final(self)@, r@) == line_pressed(old(self)@, action, key),
    {
        let action = match action {
            Some(a) => a,
            None => {
                if let KeyCode::Char(c) = key.code {
                    if !key.modifiers.control {
                        self.input.insert(c);
                        self.slash_selection = 0;
                    }
                }
                return KeyStep::Done;
            },
        };
        match action {
            TuiAction::CursorWordLeft => self.input.move_word_left(),
            TuiAction::CursorWordRight => self.input.move_word_right(),
            TuiAction::CursorLeft => self.input.move_left(),
            TuiAction::CursorRight => self.input.move_right(),
            TuiAction::ScrollTop => self.scroll_to_top(),
            TuiAction::ScrollBottom => self.scroll_to_bottom(),
            TuiAction::ScrollLineUp => self.scroll_by(1),
            TuiAction::ScrollLineDown => self.scroll_by(-1),
            TuiAction::CursorLineStart => self.input.move_line_start(),
            TuiAction::CursorLineEnd => self.input.move_line_end(),
            TuiAction::Previous => {
                if self.input.is_single_line() {
                    self.history_previous();
                }
            },
            TuiAction::Next => {
                if self.input.is_single_line() {
                    self.history_next();
                }
            },
            TuiAction::DeleteWordLeft => {
                self.input.delete_word_left();
                self.slash_selection = 0;
            },
            TuiAction::Backspace => {
                self.input.backspace();
                self.slash_selection = 0;
            },
            TuiAction::Delete => {
                self.input.delete();
                self.slash_selection = 0;
            },
            TuiAction::InsertNewline => {
                self.input.insert('\n');
                self.slash_selection = 0;
            },
            TuiAction::Submit => {
                if !self.input.is_blank() {
                    let message = self.input.take();
                    return KeyStep::Submit(message);
                }
            },
            _ => {},
        }
        KeyStep::Done
    }

    /// Takes a key. `choices` are the commands that fit the line.
    pub fn handle_key(&mut self, key: KeyEvent, choices: &Vec<CommandChoice>) -> (r: KeyStep)
        requires
            old(self).wf(),
        ensures
            final(self).wf(),
            (final(self)@, r@) == pressed(old(self)@, key, choices@),
    {
        let action = keybindings::resolve(key);
        let asked = self.pending_approvals.len() > 0;
        match action {
            Some(TuiAction::Escape) => {
                self.escape();
                return KeyStep::Done;
            },
            Some(TuiAction::ToggleHelp) => {
                self.show_help = !self.show_help;
                return KeyStep::Done;
            },
            _ => {},
        }
        if self.show_help {
            return KeyStep::Done;
        }
        match action {
            Some(TuiAction::PageUp) => {
                if asked {
                    self.scroll_question(true, 4);
                } else {
                    self.scroll_by(8);
                }
                return KeyStep::Done;
            },
            Some(TuiAction::PageDown) => {
                if asked {
                    self.scroll_question(false, 4);
                } else {
                    self.scroll_by(-8);
                }
                return KeyStep::Done;
            },
            Some(TuiAction::ToggleToolDetails) => {
                self.toggle_tool_details();
                return KeyStep::Done;
            },
            Some(TuiAction::ClearInput) => {
                self.input.clear();
                self.reset_slash_selection();
                self.history_cursor = None;
                return KeyStep::Done;
            },
            Some(TuiAction::ClearQueue) => return KeyStep::ClearQueue,
            Some(TuiAction::CancelTurn) => {
                let n: usize = self.active_turns.len();
                if n == 0 {
                    return KeyStep::Done;
                }
                assert(self@.active_turns.last() == self.active_turns@[n - 1]@);
                return KeyStep::Cancel(self.active_turns[n - 1].request_id.clone());
            },
            _ => {},
        }
        if asked {
            assert(self@.pending_approvals[0] == self.pending_approvals@[0]@);
            return match keybindings::approval_decision(key) {
                Some(approved) => KeyStep::Answer {
                    approval_id: self.pending_approvals[0].id.clone(),
                    approved,
                },
                None => KeyStep::Done,
            };
        }
        if let Some(selected) = self.selected_slash(choices.len()) {
            let complete = match action {
                Some(TuiAction::Previous) => {
                    self.select_previous_slash(choices.len());
                    return KeyStep::Done;
                },
                Some(TuiAction::Next) => {
                    self.select_next_slash(choices.len());
                    return KeyStep::Done;
                },
                Some(TuiAction::Complete) => true,
                Some(TuiAction::Submit) => !choices[selected].exact,
                _ => false,
            };
            if complete {
                let texts = completion_texts(choices);
                self.complete_selected_slash(&texts);
                return KeyStep::Done;
            }
        }
        self.press_in_line(action, key)
    }

    /// Takes a text that is pasted, unless a question or the help hides the line.
    pub fn on_paste(&mut self, s: &str)
        requires
            old(self).wf(),
        ensures
            final(self).wf(),
            final(self)@ == (if old(self)@.pending_approvals.len() > 0 || old(self)@.show_help {
                old(self)@
            } else {
                edited(
                    old(self)@,
                    input_editor::inserted(
                        old(self)@.input,
                        input_editor::without_returns(s@),
                    ),
                )
            }),
    {
        if self.pending_approvals.len() == 0 && !self.show_help {
            self.input.insert_text(s);
            self.reset_slash_selection();
        }
    }

    /// Takes a turn of the wheel.
    pub fn on_wheel(&mut self, up: bool)
        requires
            old(self).wf(),
        ensures
            final(self).wf(),
            final(self)@ == (if old(self)@.show_help {
                old(self)@
            } else if old(self)@.pending_approvals.len() > 0 {
                question_scrolled(
                    old(self)@,
                    if up {
                        -3
                    } else {
                        3
                    },
                )
            } else {
                crate::entry::tui::scrolled(
                    old(self)@,
                    if up {
                        3
                    } else {
                        -3
                    },
                )
            }),
    {
        if self.show_help {
            return;
        }
        if self.pending_approvals.len() > 0 {
            self.scroll_question(up, 3);
        } else if up {
            self.scroll_by(3);
        } else {
            self.scroll_by(-3);
        }
    }

    /// The queue was emptied of so many messages.
    pub fn queue_cleared(&mut self, cleared: usize)
        requires
            old(self).wf(),
        ensures
            final(self).wf(),
            final(self)@ == (TuiView {
                queued_count: if old(self).queued_count < cleared {
                    0
                } else {
                    (old(self).queued_count - cleared) as usize
                },
                status: if cleared == 0 {
                    "发送队列为空"@
                } else {
                    "已清空 "@ + text::decimal(cleared as nat) + " 条排队消息"@
                },
                ..old(self)@
            }),
    {
        self.queued_count = self.queued_count.saturating_sub(cleared);
        self.status = if cleared == 0 {
            "发送队列为空".to_owned()
        } else {
            let mut s = "已清空 ".to_owned();
            s.append(text::decimal_text(cleared as u64).as_str());
            s.append(" 条排队消息");
            s
        };
    }

    /// A turn was asked to stop.
    pub fn cancel_sent(&mut self)
        requires
            old(self).wf(),
        ensures
            final(self).wf(),
            final(self)@ == frames::saying(old(self)@, "已发送取消请求"@),
    {
        self.status = "已发送取消请求".to_owned();
    }

    /// The first question was answered.
    pub fn answered(&mut self, approved: bool)
        requires
            old(self).wf(),
        ensures
            final(self).wf(),
            final(self)@ == (TuiView {
                pending_approvals: if old(self)@.pending_approvals.len() > 0 {
                    old(self)@.pending_approvals.drop_first()
                } else {
                    old(self)@.pending_approvals
                },
                status: if approved {
                    "审批已允许，继续执行"@
                } else {
                    "审批已拒绝，继续执行"@
                },
                ..old(self)@
            }),
    {
        if self.pending_approvals.len() > 0 {
            let ghost before = self@.pending_approvals;
            self.pending_approvals.remove(0);
            assert(self@.pending_approvals =~= before.drop_first());
        }
        self.status = if approved {
            "审批已允许，继续执行".to_owned()
        } else {
            "审批已拒绝，继续执行".to_owned()
        };
    }

    /// A line was sent.
    pub fn submitted(&mut self, message: &str)
        requires
            old(self).wf(),
        ensures
            final(self).wf(),
            final(self)@ == crate::entry::tui::with_history(old(self)@, message@),
    {
        self.record_history(message);
    }

    /// A line could not be sent: it is there again, with the reason in the state line.
    pub fn not_submitted(&mut self, message: &str, reason: &str)
        requires
            old(self).wf(),
        ensures
            final(self).wf(),
            final(self)@ == frames::saying(
                moved(old(self)@, crate::entry::tui::typed(message@)),
                "操作失败："@ + reason@,
            ),
    {
        self.input.replace(message);
        self.failed(reason);
    }

    /// Something that a key asked for failed.
    pub fn failed(&mut self, reason: &str)
        requires
            old(self).wf(),
        ensures
            final(self).wf(),
            final(self)@ == frames::saying(old(self)@, "操作失败："@ + reason@),
    {
        let mut s = "操作失败：".to_owned();
        s.append(reason);
        self.status = s;
    }
}

/// What is done with a line that is sent.
#[derive(Debug)]
pub enum Submission {
    /// Run the command line.
    Command(String),
    /// Send the message.
    Message(String),
}

fn only_digits(s: &str) -> (r: bool)
    ensures
        r == text::all_digits(s@),
{
    let v = text::chars_of(s);
    let mut i: usize = 0;
    while i < v.len()
        invariant
            i <= v@.len(),
            v@ == s@,
            forall|k: int| 0 <= k < i ==> '0' <= #[trigger] v@[k] <= '9',
        decreases v@.len() - i,
    {
        if v[i] < '0' || v[i] > '9' {
            return false;
        }
        i = i + 1;
    }
    true
}

/// How a session is listed.
pub open spec fn session_line(number: nat, s: SessionInfoView) -> Seq<char> {
    text::decimal(number) + ". "@ + s.id + " · "@ + sessions::session_status_name(s.status)
        + " · "@ + text::decimal(s.active_requests) + " 个活动请求 · "@ + text::decimal(
        s.message_count as nat,
    ) + " 条消息"@ + (if s.active {
        " · 当前"@
    } else {
        ""@
    }) + "\n   "@ + (match s.preview {
        Some(p) => p,
        None => "无摘要"@,
    })
}

/// The list of sessions as text.
pub open spec fn session_choices(v: Seq<SessionInfoView>, select: bool) -> Seq<char> {
    if v.len() == 0 {
        if select {
            "暂无可恢复的历史会话。"@
        } else {
            "暂无会话记录。"@
        }
    } else {
        let lines = seq!["可恢复的历史会话："@] + Seq::new(
            v.len(),
            |i: int| session_line((i + 1) as nat, v[i]),
        );
        text::join(
            if select {
                lines.push("输入编号，或使用 /resume <编号或 session ID>。"@)
            } else {
                lines
            },
            "\n"@,
        )
    }
}

/// Lists sessions, with a hint where one is to be chosen.
pub fn render_session_choices(list: &Vec<SessionInfo>, select: bool) -> (r: String)
    ensures
        r@ == session_choices(sessions::session_views(list@), select),
{
    let ghost views = sessions::session_views(list@);
    if list.len() == 0 {
        return if select {
            "暂无可恢复的历史会话。".to_owned()
        } else {
            "暂无会话记录。".to_owned()
        };
    }
    let mut lines: Vec<String> = Vec::new();
    lines.push("可恢复的历史会话：".to_owned());
    let ghost head = text::views(lines@);
    assert(head =~= seq!["可恢复的历史会话："@]);
    let mut i: usize = 0;
    assert(text::views(lines@) =~= head + Seq::new(
        0,
        |k: int| session_line((k + 1) as nat, views[k]),
    ));
    while i < list.len()
        invariant
            i <= list@.len(),
            views == sessions::session_views(list@),
            text::views(lines@) == head + Seq::new(
                i as nat,
                |k: int| session_line((k + 1) as nat, views[k]),
            ),
        decreases list@.len() - i,
    {
        let s = &list[i];
        assert(views[i as int] == s@);
        let mut line = text::decimal_text(i as u64 + 1);
        line.append(". ");
        line.append(s.id.as_str());
        line.append(" · ");
        line.append(s.status.name());
        line.append(" · ");
        line.append(text::decimal_text(s.active_requests as u64).as_str());
        line.append(" 个活动请求 · ");
        line.append(text::decimal_text(s.message_count as u64).as_str());
        line.append(" 条消息");
        if s.active {
            line.append(" · 当前");
        } else {
            line.append("");
        }
        line.append("\n   ");
        match &s.preview {
            Some(p) => line.append(p.as_str()),
            None => line.append("无摘要"),
        }
        let ghost before = text::views(lines@);
        lines.push(line);
        assert(text::views(lines@) =~= before.push(line@));
        i = i + 1;
        assert(text::views(lines@) =~= head + Seq::new(
            i as nat,
            |k: int| session_line((k + 1) as nat, views[k]),
        ));
    }
    if select {
        let ghost before = text::views(lines@);
        let hint = "输入编号，或使用 /resume <编号或 session ID>。".to_owned();
        lines.push(hint);
        assert(text::views(lines@) =~= before.push(hint@));
    }
    text::join_texts(&lines, "\n")
}

/// The terminal with a turn that was sent.
pub open spec fn with_turn(t: TuiView, id: RequestIdView, message: Seq<char>, now: u64) -> TuiView {
    let said = TuiView {
        scroll: 0,
        follow_bottom: true,
        unread_messages: 0,
        ..crate::entry::tui::with_text(t, Role::User, message, None, now)
    };
    TuiView {
        turn_phases: said.turn_phases.insert(id, ActivityPhase::WaitingModel),
        active_turns: said.active_turns.push(
            TurnView { request_id: id, recovery_attempts: 0 },
        ),
        ..said
    }
}

/// The state line once a turn is sent.
pub open spec fn waiting_status(id: RequestIdView, queued: Option<usize>) -> Seq<char> {
    "等待模型响应 · request="@ + frames::request_label(id) + (match queued {
        Some(n) => " · 队列 "@ + text::decimal(n as nat),
        None => " · 队列状态暂不可用"@,
    })
}

impl TuiState {
    /// Decides what is done with a line that is sent: a command line begins with a slash, and
    /// a number chooses where sessions were offered.
    pub fn submit_input(&mut self, message: &str) -> (r: Submission)
        requires
            old(self).wf(),
        ensures
            final(self).wf(),
            ({
                let line = text::trim(message@);
                if line.len() > 0 && line[0] == '/' {
                    final(self)@ == old(self)@ && (r matches Submission::Command(c) && c@ == line)
                } else if old(self)@.resume_choices.len() > 0 && text::all_digits(line) {
                    final(self)@ == old(self)@ && (r matches Submission::Command(c) && c@
                        == "/resume "@ + line)
                } else {
                    final(self)@ == (TuiView { resume_choices: Seq::empty(), ..old(self)@ })
                        && (r matches Submission::Message(m) && m@ == message@)
                }
            }),
    {
        let line = text::trim_text(message);
        let chars = text::chars_of(line.as_str());
        if chars.len() > 0 && chars[0] == '/' {
            return Submission::Command(line);
        }
        if self.resume_choices.len() > 0 && only_digits(line.as_str()) {
            let mut c = "/resume ".to_owned();
            c.append(line.as_str());
            return Submission::Command(c);
        }
        self.resume_choices = Vec::new();
        assert(self@ =~= (TuiView { resume_choices: Seq::empty(), ..old(self)@ }));
        Submission::Message(message.to_owned())
    }

    /// A message was sent as the turn of a request.
    pub fn begin_turn(&mut self, request_id: &RequestId, message: String, now: u64)
        requires
            old(self).wf(),
        ensures
            final(self).wf(),
            final(self)@ == with_turn(old(self)@, request_id@, message@, now),
    {
        let ghost said = message@;
        self.push_user(message, now);
        self.set_turn_phase(request_id, ActivityPhase::WaitingModel);
        let ghost before = self@.active_turns;
        let turn = ActiveTurn { request_id: request_id.clone(), recovery_attempts: 0 };
        let ghost view = turn@;
        self.active_turns.push(turn);
        assert(self@.active_turns =~= before.push(view));
        assert(self@ =~= with_turn(old(self)@, request_id@, said, now));
    }

    /// The queue was looked at after a turn was sent.
    pub fn turn_queued(&mut self, request_id: &RequestId, queued: Option<usize>)
        requires
            old(self).wf(),
        ensures
            final(self).wf(),
            final(self)@ == (TuiView {
                queued_count: match queued {
                    Some(n) => n,
                    None => old(self).queued_count,
                },
                status: waiting_status(request_id@, queued),
                ..old(self)@
            }),
    {
        let mut s = "等待模型响应 · request=".to_owned();
        s.append(frames::label_request(request_id).as_str());
        let ghost head = s@;
        match queued {
            Some(n) => {
                self.queued_count = n;
                s.append(" · 队列 ");
                s.append(text::decimal_text(n as u64).as_str());
                assert(s@ =~= head + (" · 队列 "@ + text::decimal(n as nat)));
            },
            None => s.append(" · 队列状态暂不可用"),
        }
        self.status = s;
    }

    /// A command answered with a text.
    pub fn command_said(&mut self, content: String, now: u64)
        requires
            old(self).wf(),
        ensures
            final(self).wf(),
            final(self)@ == frames::saying(
                crate::entry::tui::with_text(old(self)@, Role::System, content@, None, now),
                "命令已完成"@,
            ),
    {
        self.push_text(Role::System, content, now);
        self.status = "命令已完成".to_owned();
    }

    /// A command answered with sessions.
    pub fn command_listed(&mut self, list: Vec<SessionInfo>, select: bool, now: u64)
        requires
            old(self).wf(),
        ensures
            final(self).wf(),
            ({
                let views = sessions::session_views(list@);
                final(self)@ == (TuiView {
                    scroll: 0,
                    resume_choices: if select {
                        views
                    } else {
                        Seq::empty()
                    },
                    status: if views.len() == 0 {
                        "暂无会话记录"@
                    } else if select {
                        "请选择要恢复的 session"@
                    } else {
                        "已列出 session"@
                    },
                    ..crate::entry::tui::with_text(
                        old(self)@,
                        Role::System,
                        session_choices(views, select),
                        None,
                        now,
                    )
                })
            }),
    {
        let ghost views = sessions::session_views(list@);
        let none = list.len() == 0;
        self.push_text(Role::System, render_session_choices(&list, select), now);
        self.resume_choices = if select {
            list
        } else {
            Vec::new()
        };
        if !select {
            assert(self@.resume_choices =~= Seq::<SessionInfoView>::empty());
        }
        self.scroll = 0;
        self.status = if none {
            "暂无会话记录".to_owned()
        } else if select {
            "请选择要恢复的 session".to_owned()
        } else {
            "已列出 session".to_owned()
        };
    }

    /// A command changed the session.
    pub fn command_changed(
        &mut self,
        message: String,
        snapshot: RecoverySnapshot,
        cache: &mut RenderCache,
        now: u64,
    )
        requires
            old(self).wf(),
        ensures
            final(self).wf(),
            final(cache).wf(),
            final(cache)@ == Map::<RenderCacheKey, Seq<Seq<Cell>>>::empty(),
            final(self)@ == frames::saying(
                crate::entry::tui::changed(old(self)@, snapshot@, now),
                message@,
            ),
    {
        self.replace_snapshot(snapshot, cache, now);
        self.status = message;
    }

    /// The console on the web was opened.
    pub fn web_opened(&mut self, url: &str, started: bool, now: u64)
        requires
            old(self).wf(),
        ensures
            final(self).wf(),
            final(self)@ == frames::saying(
                crate::entry::tui::with_text(
                    TuiView { web_url: url@, ..old(self)@ },
                    Role::System,
                    (if started {
                        "已启动并打开"@
                    } else {
                        "已在运行，已打开"@
                    }) + " Web 控制台："@ + url@,
                    None,
                    now,
                ),
                "Web 控制台 · "@ + url@,
            ),
    {
        let mut said = if started {
            "已启动并打开".to_owned()
        } else {
            "已在运行，已打开".to_owned()
        };
        said.append(" Web 控制台：");
        said.append(url);
        self.web_url = url.to_owned();
        self.push_text(Role::System, said, now);
        let mut status = "Web 控制台 · ".to_owned();
        status.append(url);
        self.status = status;
    }
}

/// How often a turn whose events broke off is taken up again.
pub const MAX_RECOVERY_ATTEMPTS: u8 = 3;

/// A turn whose events broke off.
#[derive(Debug)]
pub struct Interrupted {
    pub request_id: RequestId,
    pub attempts: u8,
    /// It is to be taken up again.
    pub again: bool,
}

/// How often a turn broke off, with this time.
pub open spec fn next_attempt(n: u8) -> u8 {
    if n == u8::MAX {
        n
    } else {
        (n + 1) as u8
    }
}

impl TuiState {
    /// The events of a turn broke off. It is to be taken up again, unless that was tried
    /// often enough.
    pub fn on_interrupted(&mut self, index: usize) -> (r: Interrupted)
        requires
            old(self).wf(),
            index < old(self).active_turns@.len(),
        ensures
            final(self).wf(),
            ({
                let turn = old(self)@.active_turns[index as int];
                let n = next_attempt(turn.recovery_attempts);
                let s = TuiView {
                    active_turns: old(self)@.active_turns.remove(index as int),
                    ..old(self)@
                };
                &&& r.request_id@ == turn.request_id
                &&& r.attempts == n
                &&& r.again == (n <= MAX_RECOVERY_ATTEMPTS)
                &&& final(self)@ == (if r.again {
                    frames::with_phase(s, turn.request_id, ActivityPhase::Recovering)
                } else {
                    TuiView {
                        turn_phases: s.turn_phases.remove(turn.request_id),
                        status: "任务流多次中断 · 可通过 /resume 恢复 Session"@,
                        ..s
                    }
                })
            }),
    {
        let ghost before = self@.active_turns;
        let turn = self.active_turns.remove(index);
        assert(self@.active_turns =~= before.remove(index as int));
        assert(turn@ == before[index as int]);
        let attempts: u8 = if turn.recovery_attempts == u8::MAX {
            u8::MAX
        } else {
            turn.recovery_attempts + 1
        };
        let again = attempts <= MAX_RECOVERY_ATTEMPTS;
        if again {
            self.set_turn_phase(&turn.request_id, ActivityPhase::Recovering);
        } else {
            self.end_turn_phase(&turn.request_id);
            self.status = "任务流多次中断 · 可通过 /resume 恢复 Session".to_owned();
        }
        Interrupted { request_id: turn.request_id, attempts, again }
    }

    /// A turn that broke off was taken up again, or could not be.
    pub fn on_recovered(&mut self, request_id: &RequestId, attempts: u8, result: Result<(), String>)
        requires
            old(self).wf(),
        ensures
            final(self).wf(),
            final(self)@ == (match result {
                Ok(()) => TuiView {
                    active_turns: old(self)@.active_turns.push(
                        TurnView { request_id: request_id@, recovery_attempts: attempts },
                    ),
                    status: "连接中断，已重新订阅任务（第 "@ + text::decimal(attempts as nat)
                        + "/3 次）"@,
                    ..old(self)@
                },
                Err(e) => TuiView {
                    turn_phases: old(self)@.turn_phases.remove(request_id@),
                    status: "恢复任务失败："@ + e@ + " · 可通过 /resume 恢复 Session"@,
                    ..old(self)@
                },
            }),
    {
        match result {
            Ok(()) => {
                let ghost before = self@.active_turns;
                let turn = ActiveTurn {
                    request_id: request_id.clone(),
                    recovery_attempts: attempts,
                };
                let ghost view = turn@;
                self.active_turns.push(turn);
                assert(self@.active_turns =~= before.push(view));
                let mut s = "连接中断，已重新订阅任务（第 ".to_owned();
                s.append(text::decimal_text(attempts as u64).as_str());
                s.append("/3 次）");
                self.status = s;
            },
            Err(e) => {
                self.end_turn_phase(request_id);
                let mut s = "恢复任务失败：".to_owned();
                s.append(e.as_str());
                s.append(" · 可通过 /resume 恢复 Session");
                self.status = s;
            },
        }
    }

    /// Takes out the turns that ran in the session before it was joined: each is to be watched
    /// again, then `turn_joined` or `end_turn_phase` is called.
    pub fn turns_to_join(&mut self) -> (r: Vec<RequestId>)
        requires
            old(self).wf(),
        ensures
            final(self).wf(),
            sessions::id_views(r@) == old(self)@.recovery_active_requests,
            final(self)@ == (TuiView {
                recovery_active_requests: Seq::empty(),
                ..old(self)@
            }),
    {
        let mut ids: Vec<RequestId> = Vec::new();
        std::mem::swap(&mut ids, &mut self.recovery_active_requests);
        assert(self@.recovery_active_requests =~= Seq::<RequestIdView>::empty());
        ids
    }

    /// A turn that ran before is watched again.
    pub fn turn_joined(&mut self, request_id: RequestId)
        requires
            old(self).wf(),
        ensures
            final(self).wf(),
            final(self)@ == (TuiView {
                active_turns: old(self)@.active_turns.push(
                    TurnView { request_id: request_id@, recovery_attempts: 0 },
                ),
                ..old(self)@
            }),
    {
        let ghost before = self@.active_turns;
        let turn = ActiveTurn { request_id, recovery_attempts: 0 };
        let ghost view = turn@;
        self.active_turns.push(turn);
        assert(self@.active_turns =~= before.push(view));
    }

    /// The queue was counted.
    pub fn queue_counted(&mut self, queued: usize)
        requires
            old(self).wf(),
        ensures
            final(self).wf(),
            final(self)@ == (TuiView { queued_count: queued, ..old(self)@ }),
    {
        self.queued_count = queued;
    }

    /// A session was joined, and the turns that ran there were taken up again but for some.
    pub fn joined_session(&mut self, failures: usize)
        requires
            old(self).wf(),
        ensures
            final(self).wf(),
            final(self)@ == frames::saying(
                old(self)@,
                "新会话 "@ + old(self)@.session_id + (if failures == 0 {
                    ""@
                } else {
                    " · "@ + text::decimal(failures as nat) + " 个活动请求恢复失败"@
                }) + " · /web 打开 "@ + old(self)@.web_url,
            ),
    {
        let mut s = "新会话 ".to_owned();
        s.append(self.session_id.as_str());
        let ghost head = s@;
        if failures == 0 {
            s.append("");
        } else {
            s.append(" · ");
            s.append(text::decimal_text(failures as u64).as_str());
            s.append(" 个活动请求恢复失败");
            assert(s@ =~= head + (" · "@ + text::decimal(failures as nat)
                + " 个活动请求恢复失败"@));
        }
        s.append(" · /web 打开 ");
        s.append(self.web_url.as_str());
        self.status = s;
    }

    /// What moves is to be moved on, so many milliseconds after it was last.
    pub fn animation_due(&self, elapsed_ms: u64) -> (r: bool)
        requires
            self.wf(),
        ensures
            r == (crate::entry::tui::overall(self@).moves() && elapsed_ms >= 90),
    {
        self.activity_phase().is_animated() && elapsed_ms >= 90
    }
}

/// How many times turns are looked at before the screen is drawn again.
pub const POLLS_PER_FRAME: usize = 128;

/// Which turn is looked at next, and how many in a row had nothing to tell.
#[derive(Clone, Copy, Debug, PartialEq, Eq, Structural)]
pub struct Polling {
    pub index: usize,
    pub idle: usize,
}

impl Polling {
    /// The first turn is looked at first.
    pub fn new() -> (r: Self)
        ensures
            r == (Polling { index: 0, idle: 0 }),
    {
        Polling { index: 0, idle: 0 }
    }

    /// The turn that is looked at, of so many; none once all had nothing to tell.
    pub fn pick(&mut self, turns: usize) -> (r: Option<usize>)
        ensures
            if turns == 0 || old(self).idle >= turns {
                r is None && *final(self) == *old(self)
            } else {
                r == Some((old(self).index % turns) as usize) && *final(self) == (Polling {
                    index: (old(self).index % turns) as usize,
                    idle: old(self).idle,
                }) && r->0 < turns
            },
    {
        if turns == 0 || self.idle >= turns {
            return None;
        }
        self.index = self.index % turns;
        Some(self.index)
    }

    /// The turn told something; the next one is looked at, unless this one has gone.
    pub fn told(&mut self, turns: usize, still_there: bool)
        requires
            old(self).index < usize::MAX,
            still_there ==> turns > 0,
        ensures
            *final(self) == (Polling {
                index: if still_there {
                    ((old(self).index + 1) % turns as int) as usize
                } else {
                    old(self).index
                },
                idle: 0,
            }),
    {
        self.idle = 0;
        if still_there {
            self.index = (self.index + 1) % turns;
        }
    }

    /// The turn had nothing to tell; the next one is looked at.
    pub fn silent(&mut self, turns: usize)
        requires
            turns > 0,
            old(self).index < usize::MAX,
            old(self).idle < usize::MAX,
        ensures
            *final(self) == (Polling {
                index: ((old(self).index + 1) % turns as int) as usize,
                idle: (old(self).idle + 1) as usize,
            }),
    {
        self.idle = self.idle + 1;
        self.index = (self.index + 1) % turns;
    }
}

/// While the help is shown, only the keys for the help and for closing change anything.
pub proof fn law_help_hides_the_rest(t: TuiView, key: KeyEvent, choices: Seq<CommandChoice>)
    requires
        t.show_help,
    ensures
        ({
            let action = keybindings::first_triggered(keybindings::action_order(), 0, key);
            let r = pressed(t, key, choices);
            &&& r.1 == StepView::Done
            &&& if action == Some(TuiAction::Escape) || action == Some(TuiAction::ToggleHelp) {
                r.0 == (TuiView { show_help: false, ..t })
            } else {
                r.0 == t
            }
        }),
{
}

/// While a question waits, no key edits the line or sends it, but for those that empty it.
pub proof fn law_question_keeps_the_line(t: TuiView, key: KeyEvent, choices: Seq<CommandChoice>)
    requires
        t.pending_approvals.len() > 0,
        !t.show_help,
    ensures
        ({
            let action = keybindings::first_triggered(keybindings::action_order(), 0, key);
            let r = pressed(t, key, choices);
            &&& !(r.1 is Submit)
            &&& action != Some(TuiAction::Escape) && action != Some(TuiAction::ClearInput)
                ==> r.0.input == t.input
        }),
{
}

/// A line is sent as it was typed, and the line is then empty; a line that says nothing is
/// not sent.
pub proof fn law_lines_are_sent_as_typed(t: TuiView, key: KeyEvent)
    ensures
        ({
            let r = line_pressed(t, Some(TuiAction::Submit), key);
            &&& text::blank(t.input.text) ==> r == (t, StepView::Done)
            &&& !text::blank(t.input.text) ==> r.1 == StepView::Submit(t.input.text)
                && r.0.input.text.len() == 0 && r.0.messages == t.messages
        }),
{
}

/// A character that is typed stands in the line at the place; with the control key it does
/// not.
pub proof fn law_characters_are_typed(t: TuiView, key: KeyEvent, c: char)
    requires
        key.code == KeyCode::Char(c),
        0 <= t.input.cursor <= t.input.text.len(),
    ensures
        !key.modifiers.control ==> line_pressed(t, None, key).0.input.text == t.input.text.take(
            t.input.cursor,
        ).push(c) + t.input.text.skip(t.input.cursor),
        key.modifiers.control ==> line_pressed(t, None, key) == (t, StepView::Done),
        line_pressed(t, None, key).1 is Done,
{
    if !key.modifiers.control {
        assert(line_pressed(t, None, key).0.input.text =~= t.input.text.take(t.input.cursor).push(c)
            + t.input.text.skip(t.input.cursor));
    }
}

/// While a question waits, the first is answered, as the key decides.
pub proof fn law_the_first_question_is_answered(
    t: TuiView,
    key: KeyEvent,
    choices: Seq<CommandChoice>,
)
    ensures
        pressed(t, key, choices).1 matches StepView::Answer { approval_id, approved }
            ==> t.pending_approvals.len() > 0 && approval_id == t.pending_approvals[0].id
            && keybindings::decision(key) == Some(approved),
        pressed(t, key, choices).1 matches StepView::Cancel(id) ==> t.active_turns.len() > 0 && id
            == t.active_turns.last().request_id,
        pressed(t, key, choices).1 matches StepView::Submit(s) ==> s == t.input.text && !text::blank(
            s,
        ) && t.pending_approvals.len() == 0,
{
}

/// No key changes what was said or which turns are at work; a key that is pressed may only
/// edit the line, scroll, choose or close.
pub proof fn law_keys_keep_the_conversation(
    t: TuiView,
    key: KeyEvent,
    choices: Seq<CommandChoice>,
)
    ensures
        pressed(t, key, choices).0.messages == t.messages,
        pressed(t, key, choices).0.active_turns == t.active_turns,
        pressed(t, key, choices).0.pending_approvals == t.pending_approvals,
        pressed(t, key, choices).0.session_id == t.session_id,
        pressed(t, key, choices).0.turn_phases == t.turn_phases,
        pressed(t, key, choices).0.should_quit && !t.should_quit ==> keybindings::first_triggered(
            keybindings::action_order(),
            0,
            key,
        ) == Some(TuiAction::Escape),
{
}

/// Escape closes the help, then empties a command, and only then the program.
pub proof fn law_escape_closes_one_thing(t: TuiView)
    ensures
        t.show_help ==> !escaped(t).show_help && escaped(t).should_quit == t.should_quit
            && escaped(t).input == t.input,
        !t.show_help && begins_command(t.input.text) ==> escaped(t).input.text.len() == 0
            && escaped(t).should_quit == t.should_quit,
        !t.show_help && !begins_command(t.input.text) ==> escaped(t).should_quit && escaped(t).input
            == t.input,
{
}

/// A line begins a command exactly where its first character that is no space is a slash.
pub proof fn law_commands_begin_with_a_slash(s: Seq<char>, rest: Seq<char>)
    ensures
        begins_command(seq!['/'] + rest),
        begins_command(s) ==> s.contains('/'),
        text::blank(s) ==> !begins_command(s),
{
    let t = seq!['/'] + rest;
    text::lemma_leading_space(t);
    text::lemma_leading_space(s);
    assert(t[0] == '/');
    if text::leading_space(t) > 0 {
        assert(text::white_space(t[0]));
    }
    let u = text::trim_start(s);
    if begins_command(s) {
        assert(u[0] == s[text::leading_space(s) as int]);
    }
    text::lemma_blank_trim(s);
}

/// The queued runs are those that are listed with an identifier, in order; the removals that
/// count are those that were carried out.
pub proof fn law_queues_are_cleared(a: Seq<JsonView>, b: Seq<JsonView>, j: JsonView)
    ensures
        runs_of(a + b) == runs_of(a) + runs_of(b),
        json::at_key(j, "run_id"@) matches JsonView::Str(id) ==> runs_of(seq![j]) == seq![id],
        !(json::at_key(j, "run_id"@) is Str) ==> runs_of(seq![j]).len() == 0,
        removals(a + b) == removals(a) + removals(b),
        removals(seq![j]) == (if json::at_key(j, "cancelled"@) == JsonView::Bool(true) {
            1int
        } else {
            0
        }),
        json::at_key(j, "items"@) matches JsonView::Array(v) ==> listed_items(j) == v,
    decreases b.len(),
{
    assert(seq![j].drop_last() =~= Seq::<JsonView>::empty());
    reveal_with_fuel(runs_of, 2);
    reveal_with_fuel(removals, 2);
    if let JsonView::Str(id) = json::at_key(j, "run_id"@) {
        assert(runs_of(seq![j]) =~= seq![id]);
    }
    if b.len() == 0 {
        assert(a + b =~= a);
    } else {
        law_queues_are_cleared(a, b.drop_last(), j);
        assert((a + b).drop_last() =~= a + b.drop_last());
        assert((a + b).last() == b.last());
    }
    assert(runs_of(a + b) =~= runs_of(a) + runs_of(b));
}

/// A message that is sent is shown as the user's, its turn is the last of those at work and
/// waits for the model; the end of the conversation is in sight.
pub proof fn law_a_message_begins_a_turn(t: TuiView, id: RequestIdView, message: Seq<char>, now: u64)
    ensures
        with_turn(t, id, message, now).messages.len() == t.messages.len() + 1,
        with_turn(t, id, message, now).messages.last().role is User,
        with_turn(t, id, message, now).messages.last().kind == crate::entry::tui::KindView::Text(
            message,
        ),
        with_turn(t, id, message, now).active_turns.len() == t.active_turns.len() + 1,
        with_turn(t, id, message, now).active_turns.last().request_id == id,
        with_turn(t, id, message, now).active_turns.last().recovery_attempts == 0,
        with_turn(t, id, message, now).turn_phases.dom().contains(id),
        with_turn(t, id, message, now).turn_phases[id] is WaitingModel,
        with_turn(t, id, message, now).follow_bottom,
        with_turn(t, id, message, now).scroll == 0,
        with_turn(t, id, message, now).unread_messages == 0,
        with_turn(t, id, message, now).input == t.input,
        forall|i: int|
            0 <= i < t.active_turns.len() ==> #[trigger] with_turn(
                t,
                id,
                message,
                now,
            ).active_turns[i] == t.active_turns[i],
{
}

/// The line of a session tells its number, its identifier and its preview; an empty list is
/// told differently where a session was to be chosen.
pub proof fn law_session_choices(v: Seq<SessionInfoView>, s: SessionInfoView, number: nat)
    ensures
        (text::decimal(number) + ". "@ + s.id).is_prefix_of(session_line(number, s)),
        s.preview is Some ==> s.preview->0.is_suffix_of(session_line(number, s)),
        v.len() == 0 ==> session_choices(v, true) != session_choices(v, false),
{
    reveal_strlit("暂无可恢复的历史会话。");
    reveal_strlit("暂无会话记录。");
    assert("暂无可恢复的历史会话。"@.len() != "暂无会话记录。"@.len());
    let l = session_line(number, s);
    let h = text::decimal(number) + ". "@ + s.id;
    assert(l.subrange(0, h.len() as int) =~= h);
    if s.preview is Some {
        let p = s.preview->0;
        assert(l.subrange(l.len() - p.len(), l.len() as int) =~= p);
    }
}

/// The attempts to recover are counted one by one, as far as they can be.
pub proof fn law_attempts_are_counted(n: u8)
    ensures
        n < u8::MAX ==> next_attempt(n) == n + 1,
        n == u8::MAX ==> next_attempt(n) == n,
{
}

/// The session in use is marked in the list, and no other.
pub proof fn law_the_session_in_use_is_marked(s: SessionInfoView, number: nat)
    ensures
        s.active ==> text::has_text(session_line(number, s), " 条消息"@ + " · 当前"@ + "\n   "@),
        !s.active ==> text::has_text(session_line(number, s), " 条消息"@ + "\n   "@),
        text::has_text(session_line(number, s), sessions::session_status_name(s.status)),
        s.preview is None ==> "无摘要"@.is_suffix_of(session_line(number, s)),
{
    reveal_strlit("");
    let l = session_line(number, s);
    let name = sessions::session_status_name(s.status);
    let a: int = text::decimal(number).len() as int + ". "@.len() + s.id.len() + " · "@.len();
    assert(l.subrange(a, a + name.len()) =~= name);
    assert(text::occurs_at(l, name, a));
    let b: int = a + name.len() + " · "@.len() + text::decimal(s.active_requests).len()
        + " 个活动请求 · "@.len() + text::decimal(s.message_count as nat).len();
    if s.active {
        let m = " 条消息"@ + " · 当前"@ + "\n   "@;
        assert(l.subrange(b, b + m.len()) =~= m);
        assert(text::occurs_at(l, m, b));
    } else {
        let m = " 条消息"@ + "\n   "@;
        assert(l.subrange(b, b + m.len()) =~= m);
        assert(text::occurs_at(l, m, b));
    }
    if s.preview is None {
        let p = "无摘要"@;
        assert(l.subrange(l.len() - p.len(), l.len() as int) =~= p);
    }
}

} // verus!
