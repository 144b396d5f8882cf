//! The keys of the terminal and what they do.
use vstd::prelude::*;

verus! {

/// What a key does.
#[derive(Clone, Copy, Debug, PartialEq, Eq, Structural)]
pub enum TuiAction {
    Escape,
    ToggleHelp,
    PageUp,
    PageDown,
    ToggleToolDetails,
    ClearInput,
    ClearQueue,
    CancelTurn,
    Previous,
    Next,
    Complete,
    CursorWordLeft,
    CursorWordRight,
    CursorLeft,
    CursorRight,
    ScrollTop,
    ScrollBottom,
    ScrollLineUp,
    ScrollLineDown,
    CursorLineStart,
    CursorLineEnd,
    DeleteWordLeft,
    Backspace,
    Delete,
    InsertNewline,
    Submit,
}

/// A key.
#[derive(Clone, Copy, Debug, PartialEq, Eq, Structural)]
pub enum KeyCode {
    Backspace,
    Enter,
    Left,
    Right,
    Up,
    Down,
    Home,
    End,
    PageUp,
    PageDown,
    Tab,
    BackTab,
    Delete,
    Esc,
    F(u8),
    Char(char),
    /// A key that nothing is bound to.
    Other,
}

/// The keys that are held with another.
#[derive(Clone, Copy, Debug, PartialEq, Eq, Structural)]
pub struct KeyModifiers {
    pub shift: bool,
    pub control: bool,
    pub alt: bool,
    pub command: bool,
    /// One of the rarer ones is held.
    pub other: bool,
}

impl KeyModifiers {
    /// No other key is held.
    #[verifier::allow_in_spec]
    pub fn none() -> (r: Self)
        returns
            (KeyModifiers { shift: false, control: false, alt: false, command: false, other: false }),
    {
        KeyModifiers { shift: false, control: false, alt: false, command: false, other: false }
    }

    /// The control key is held.
    #[verifier::allow_in_spec]
    pub fn ctrl() -> (r: Self)
        returns
            (KeyModifiers { shift: false, control: true, alt: false, command: false, other: false }),
    {
        KeyModifiers { shift: false, control: true, alt: false, command: false, other: false }
    }

    /// The alt key is held.
    #[verifier::allow_in_spec]
    pub fn alt() -> (r: Self)
        returns
            (KeyModifiers { shift: false, control: false, alt: true, command: false, other: false }),
    {
        KeyModifiers { shift: false, control: false, alt: true, command: false, other: false }
    }

    /// The shift key is held.
    #[verifier::allow_in_spec]
    pub fn shift() -> (r: Self)
        returns
            (KeyModifiers { shift: true, control: false, alt: false, command: false, other: false }),
    {
        KeyModifiers { shift: true, control: false, alt: false, command: false, other: false }
    }
}

/// A key that is pressed.
#[derive(Clone, Copy, Debug, PartialEq, Eq, Structural)]
pub struct KeyEvent {
    pub code: KeyCode,
    pub modifiers: KeyModifiers,
}

/// A key that is bound.
#[derive(Clone, Copy, Debug, PartialEq, Eq, Structural)]
pub struct Shortcut {
    pub code: KeyCode,
    pub modifiers: KeyModifiers,
}

/// The key that is pressed is the one that is bound. For a character the shift key does not
/// matter.
pub open spec fn presses(s: Shortcut, event: KeyEvent) -> bool {
    let held = if s.code is Char {
        KeyModifiers { shift: false, ..event.modifiers }
    } else {
        event.modifiers
    };
    s.code == event.code && s.modifiers == held
}

impl Shortcut {
    /// The key that is pressed is the one that is bound.
    pub fn matches(self, event: KeyEvent) -> (r: bool)
        ensures
            r == presses(self, event),
    {
        let mut held = event.modifiers;
        if let KeyCode::Char(_) = self.code {
            held.shift = false;
        }
        self.code == event.code && self.modifiers == held
    }
}

/// All actions, in the order in which their keys are looked at.
pub open spec fn action_order() -> Seq<TuiAction> {
    seq![
        TuiAction::Escape,
        TuiAction::ToggleHelp,
        TuiAction::PageUp,
        TuiAction::PageDown,
        TuiAction::ToggleToolDetails,
        TuiAction::ClearInput,
        TuiAction::ClearQueue,
        TuiAction::CancelTurn,
        TuiAction::ScrollTop,
        TuiAction::ScrollBottom,
        TuiAction::ScrollLineUp,
        TuiAction::ScrollLineDown,
        TuiAction::CursorWordLeft,
        TuiAction::CursorWordRight,
        TuiAction::CursorLeft,
        TuiAction::CursorRight,
        TuiAction::Previous,
        TuiAction::Next,
        TuiAction::Complete,
        TuiAction::CursorLineStart,
        TuiAction::CursorLineEnd,
        TuiAction::DeleteWordLeft,
        TuiAction::Backspace,
        TuiAction::Delete,
        TuiAction::InsertNewline,
        TuiAction::Submit,
    ]
}

/// All actions, in the order in which their keys are looked at.
pub fn actions() -> (r: Vec<TuiAction>)
    ensures
        r@ == action_order(),
{
    let r = vec![
        TuiAction::Escape,
        TuiAction::ToggleHelp,
        TuiAction::PageUp,
        TuiAction::PageDown,
        TuiAction::ToggleToolDetails,
        TuiAction::ClearInput,
        TuiAction::ClearQueue,
        TuiAction::CancelTurn,
        TuiAction::ScrollTop,
        TuiAction::ScrollBottom,
        TuiAction::ScrollLineUp,
        TuiAction::ScrollLineDown,
        TuiAction::CursorWordLeft,
        TuiAction::CursorWordRight,
        TuiAction::CursorLeft,
        TuiAction::CursorRight,
        TuiAction::Previous,
        TuiAction::Next,
        TuiAction::Complete,
        TuiAction::CursorLineStart,
        TuiAction::CursorLineEnd,
        TuiAction::DeleteWordLeft,
        TuiAction::Backspace,
        TuiAction::Delete,
        TuiAction::InsertNewline,
        TuiAction::Submit,
    ];
    assert(r@ =~= action_order());
    r
}

/// The keys of an action.
pub open spec fn keys_of(action: TuiAction) -> Seq<Shortcut> {
    match action {
        TuiAction::Escape => seq![Shortcut { code: KeyCode::Esc, modifiers: KeyModifiers::none() }],
        TuiAction::ToggleHelp => seq![Shortcut { code: KeyCode::F(1), modifiers: KeyModifiers::none() }, Shortcut { code: KeyCode::Char('/'), modifiers: KeyModifiers::ctrl() }],
        TuiAction::PageUp => seq![Shortcut { code: KeyCode::PageUp, modifiers: KeyModifiers::none() }],
        TuiAction::PageDown => seq![Shortcut { code: KeyCode::PageDown, modifiers: KeyModifiers::none() }],
        TuiAction::ToggleToolDetails => seq![Shortcut { code: KeyCode::Char('t'), modifiers: KeyModifiers::ctrl() }],
        TuiAction::ClearInput => seq![Shortcut { code: KeyCode::Char('u'), modifiers: KeyModifiers::ctrl() }],
        TuiAction::ClearQueue => seq![Shortcut { code: KeyCode::Char('k'), modifiers: KeyModifiers::ctrl() }],
        TuiAction::CancelTurn => seq![Shortcut { code: KeyCode::Char('c'), modifiers: KeyModifiers::ctrl() }],
        TuiAction::ScrollTop => seq![Shortcut { code: KeyCode::Home, modifiers: KeyModifiers::ctrl() }],
        TuiAction::ScrollBottom => seq![Shortcut { code: KeyCode::End, modifiers: KeyModifiers::ctrl() }],
        TuiAction::ScrollLineUp => seq![Shortcut { code: KeyCode::Up, modifiers: KeyModifiers::ctrl() }],
        TuiAction::ScrollLineDown => seq![Shortcut { code: KeyCode::Down, modifiers: KeyModifiers::ctrl() }],
        TuiAction::CursorWordLeft => seq![Shortcut { code: KeyCode::Left, modifiers: KeyModifiers::ctrl() }, Shortcut { code: KeyCode::Left, modifiers: KeyModifiers::alt() }],
        TuiAction::CursorWordRight => seq![Shortcut { code: KeyCode::Right, modifiers: KeyModifiers::ctrl() }, Shortcut { code: KeyCode::Right, modifiers: KeyModifiers::alt() }],
        TuiAction::CursorLeft => seq![Shortcut { code: KeyCode::Left, modifiers: KeyModifiers::none() }],
        TuiAction::CursorRight => seq![Shortcut { code: KeyCode::Right, modifiers: KeyModifiers::none() }],
        TuiAction::Previous => seq![Shortcut { code: KeyCode::Up, modifiers: KeyModifiers::none() }],
        TuiAction::Next => seq![Shortcut { code: KeyCode::Down, modifiers: KeyModifiers::none() }],
        TuiAction::Complete => seq![Shortcut { code: KeyCode::Tab, modifiers: KeyModifiers::none() }, Shortcut { code: KeyCode::BackTab, modifiers: KeyModifiers::none() }, Shortcut { code: KeyCode::BackTab, modifiers: KeyModifiers::shift() }],
        TuiAction::CursorLineStart => seq![Shortcut { code: KeyCode::Home, modifiers: KeyModifiers::none() }, Shortcut { code: KeyCode::Char('a'), modifiers: KeyModifiers::ctrl() }],
        TuiAction::CursorLineEnd => seq![Shortcut { code: KeyCode::End, modifiers: KeyModifiers::none() }, Shortcut { code: KeyCode::Char('e'), modifiers: KeyModifiers::ctrl() }],
        TuiAction::DeleteWordLeft => seq![Shortcut { code: KeyCode::Backspace, modifiers: KeyModifiers::ctrl() }, Shortcut { code: KeyCode::Backspace, modifiers: KeyModifiers::alt() }, Shortcut { code: KeyCode::Char('w'), modifiers: KeyModifiers::ctrl() }],
        TuiAction::Backspace => seq![Shortcut { code: KeyCode::Backspace, modifiers: KeyModifiers::none() }],
        TuiAction::Delete => seq![Shortcut { code: KeyCode::Delete, modifiers: KeyModifiers::none() }, Shortcut { code: KeyCode::Char('d'), modifiers: KeyModifiers::ctrl() }],
        TuiAction::InsertNewline => seq![Shortcut { code: KeyCode::Enter, modifiers: KeyModifiers::alt() }, Shortcut { code: KeyCode::Char('j'), modifiers: KeyModifiers::ctrl() }],
        TuiAction::Submit => seq![Shortcut { code: KeyCode::Enter, modifiers: KeyModifiers::none() }],
    }
}

/// How the keys of an action are shown.
pub open spec fn display_of(action: TuiAction) -> Seq<char> {
    match action {
        TuiAction::Escape => "Esc"@,
        TuiAction::ToggleHelp => "F1 / Ctrl+/"@,
        TuiAction::PageUp => "PageUp"@,
        TuiAction::PageDown => "PageDown"@,
        TuiAction::ToggleToolDetails => "Ctrl+T"@,
        TuiAction::ClearInput => "Ctrl+U"@,
        TuiAction::ClearQueue => "Ctrl+K"@,
        TuiAction::CancelTurn => "Ctrl+C"@,
        TuiAction::ScrollTop => "Ctrl+Home"@,
        TuiAction::ScrollBottom => "Ctrl+End"@,
        TuiAction::ScrollLineUp => "Ctrl+↑"@,
        TuiAction::ScrollLineDown => "Ctrl+↓"@,
        TuiAction::CursorWordLeft => "Ctrl/Alt+←"@,
        TuiAction::CursorWordRight => "Ctrl/Alt+→"@,
        TuiAction::CursorLeft => "←"@,
        TuiAction::CursorRight => "→"@,
        TuiAction::Previous => "↑"@,
        TuiAction::Next => "↓"@,
        TuiAction::Complete => "Tab"@,
        TuiAction::CursorLineStart => "Home / Ctrl+A"@,
        TuiAction::CursorLineEnd => "End / Ctrl+E"@,
        TuiAction::DeleteWordLeft => "Ctrl+W"@,
        TuiAction::Backspace => "Backspace"@,
        TuiAction::Delete => "Delete / Ctrl+D"@,
        TuiAction::InsertNewline => "Alt+Enter / Ctrl+J"@,
        TuiAction::Submit => "Enter"@,
    }
}

/// What the help says of an action, if it names it.
pub open spec fn help_of(action: TuiAction) -> Option<Seq<char>> {
    match action {
        TuiAction::Escape => Some("关闭弹层 / 退出"@),
        TuiAction::ToggleHelp => Some("打开/关闭帮助"@),
        TuiAction::PageUp => Some("对话/审批向上翻页"@),
        TuiAction::PageDown => Some("对话/审批向下翻页"@),
        TuiAction::ToggleToolDetails => Some("展开/收起工具详情"@),
        TuiAction::ClearInput => None,
        TuiAction::ClearQueue => Some("清空排队消息"@),
        TuiAction::CancelTurn => Some("取消当前请求"@),
        TuiAction::ScrollTop => None,
        TuiAction::ScrollBottom => Some("回到最新消息"@),
        TuiAction::ScrollLineUp => None,
        TuiAction::ScrollLineDown => None,
        TuiAction::CursorWordLeft => None,
        TuiAction::CursorWordRight => None,
        TuiAction::CursorLeft => None,
        TuiAction::CursorRight => None,
        TuiAction::Previous => Some("上一条输入 / 上一项"@),
        TuiAction::Next => Some("下一条输入 / 下一项"@),
        TuiAction::Complete => Some("补全斜杠命令"@),
        TuiAction::CursorLineStart => None,
        TuiAction::CursorLineEnd => None,
        TuiAction::DeleteWordLeft => None,
        TuiAction::Backspace => None,
        TuiAction::Delete => None,
        TuiAction::InsertNewline => Some("插入换行"@),
        TuiAction::Submit => Some("发送消息 / 确认"@),
    }
}

impl TuiAction {
    /// The keys of the action.
    pub fn shortcuts(self) -> (r: Vec<Shortcut>)
        ensures
            r@ == keys_of(self),
    {
        let r = match self {
            TuiAction::Escape => vec![Shortcut { code: KeyCode::Esc, modifiers: KeyModifiers::none() }],
            TuiAction::ToggleHelp => vec![Shortcut { code: KeyCode::F(1), modifiers: KeyModifiers::none() }, Shortcut { code: KeyCode::Char('/'), modifiers: KeyModifiers::ctrl() }],
            TuiAction::PageUp => vec![Shortcut { code: KeyCode::PageUp, modifiers: KeyModifiers::none() }],
            TuiAction::PageDown => vec![Shortcut { code: KeyCode::PageDown, modifiers: KeyModifiers::none() }],
            TuiAction::ToggleToolDetails => vec![Shortcut { code: KeyCode::Char('t'), modifiers: KeyModifiers::ctrl() }],
            TuiAction::ClearInput => vec![Shortcut { code: KeyCode::Char('u'), modifiers: KeyModifiers::ctrl() }],
            TuiAction::ClearQueue => vec![Shortcut { code: KeyCode::Char('k'), modifiers: KeyModifiers::ctrl() }],
            TuiAction::CancelTurn => vec![Shortcut { code: KeyCode::Char('c'), modifiers: KeyModifiers::ctrl() }],
            TuiAction::ScrollTop => vec![Shortcut { code: KeyCode::Home, modifiers: KeyModifiers::ctrl() }],
            TuiAction::ScrollBottom => vec![Shortcut { code: KeyCode::End, modifiers: KeyModifiers::ctrl() }],
            TuiAction::ScrollLineUp => vec![Shortcut { code: KeyCode::Up, modifiers: KeyModifiers::ctrl() }],
            TuiAction::ScrollLineDown => vec![Shortcut { code: KeyCode::Down, modifiers: KeyModifiers::ctrl() }],
            TuiAction::CursorWordLeft => vec![Shortcut { code: KeyCode::Left, modifiers: KeyModifiers::ctrl() }, Shortcut { code: KeyCode::Left, modifiers: KeyModifiers::alt() }],
            TuiAction::CursorWordRight => vec![Shortcut { code: KeyCode::Right, modifiers: KeyModifiers::ctrl() }, Shortcut { code: KeyCode::Right, modifiers: KeyModifiers::alt() }],
            TuiAction::CursorLeft => vec![Shortcut { code: KeyCode::Left, modifiers: KeyModifiers::none() }],
            TuiAction::CursorRight => vec![Shortcut { code: KeyCode::Right, modifiers: KeyModifiers::none() }],
            TuiAction::Previous => vec![Shortcut { code: KeyCode::Up, modifiers: KeyModifiers::none() }],
            TuiAction::Next => vec![Shortcut { code: KeyCode::Down, modifiers: KeyModifiers::none() }],
            TuiAction::Complete => vec![Shortcut { code: KeyCode::Tab, modifiers: KeyModifiers::none() }, Shortcut { code: KeyCode::BackTab, modifiers: KeyModifiers::none() }, Shortcut { code: KeyCode::BackTab, modifiers: KeyModifiers::shift() }],
            TuiAction::CursorLineStart => vec![Shortcut { code: KeyCode::Home, modifiers: KeyModifiers::none() }, Shortcut { code: KeyCode::Char('a'), modifiers: KeyModifiers::ctrl() }],
            TuiAction::CursorLineEnd => vec![Shortcut { code: KeyCode::End, modifiers: KeyModifiers::none() }, Shortcut { code: KeyCode::Char('e'), modifiers: KeyModifiers::ctrl() }],
            TuiAction::DeleteWordLeft => vec![Shortcut { code: KeyCode::Backspace, modifiers: KeyModifiers::ctrl() }, Shortcut { code: KeyCode::Backspace, modifiers: KeyModifiers::alt() }, Shortcut { code: KeyCode::Char('w'), modifiers: KeyModifiers::ctrl() }],
            TuiAction::Backspace => vec![Shortcut { code: KeyCode::Backspace, modifiers: KeyModifiers::none() }],
            TuiAction::Delete => vec![Shortcut { code: KeyCode::Delete, modifiers: KeyModifiers::none() }, Shortcut { code: KeyCode::Char('d'), modifiers: KeyModifiers::ctrl() }],
            TuiAction::InsertNewline => vec![Shortcut { code: KeyCode::Enter, modifiers: KeyModifiers::alt() }, Shortcut { code: KeyCode::Char('j'), modifiers: KeyModifiers::ctrl() }],
            TuiAction::Submit => vec![Shortcut { code: KeyCode::Enter, modifiers: KeyModifiers::none() }],
        };
        assert(r@ =~= keys_of(self));
        r
    }

    /// How the keys of the action are shown.
    pub fn display(self) -> (r: &'static str)
        ensures
            r@ == display_of(self),
    {
        match self {
            TuiAction::Escape => "Esc",
            TuiAction::ToggleHelp => "F1 / Ctrl+/",
            TuiAction::PageUp => "PageUp",
            TuiAction::PageDown => "PageDown",
            TuiAction::ToggleToolDetails => "Ctrl+T",
            TuiAction::ClearInput => "Ctrl+U",
            TuiAction::ClearQueue => "Ctrl+K",
            TuiAction::CancelTurn => "Ctrl+C",
            TuiAction::ScrollTop => "Ctrl+Home",
            TuiAction::ScrollBottom => "Ctrl+End",
            TuiAction::ScrollLineUp => "Ctrl+↑",
            TuiAction::ScrollLineDown => "Ctrl+↓",
            TuiAction::CursorWordLeft => "Ctrl/Alt+←",
            TuiAction::CursorWordRight => "Ctrl/Alt+→",
            TuiAction::CursorLeft => "←",
            TuiAction::CursorRight => "→",
            TuiAction::Previous => "↑",
            TuiAction::Next => "↓",
            TuiAction::Complete => "Tab",
            TuiAction::CursorLineStart => "Home / Ctrl+A",
            TuiAction::CursorLineEnd => "End / Ctrl+E",
            TuiAction::DeleteWordLeft => "Ctrl+W",
            TuiAction::Backspace => "Backspace",
            TuiAction::Delete => "Delete / Ctrl+D",
            TuiAction::InsertNewline => "Alt+Enter / Ctrl+J",
            TuiAction::Submit => "Enter",
        }
    }

    /// What the help says of the action, if it names it.
    pub fn help(self) -> (r: Option<&'static str>)
        ensures
            crate::json::opt_view(r) == help_of(self),
    {
        match self {
            TuiAction::Escape => Some("关闭弹层 / 退出"),
            TuiAction::ToggleHelp => Some("打开/关闭帮助"),
            TuiAction::PageUp => Some("对话/审批向上翻页"),
            TuiAction::PageDown => Some("对话/审批向下翻页"),
            TuiAction::ToggleToolDetails => Some("展开/收起工具详情"),
            TuiAction::ClearInput => None,
            TuiAction::ClearQueue => Some("清空排队消息"),
            TuiAction::CancelTurn => Some("取消当前请求"),
            TuiAction::ScrollTop => None,
            TuiAction::ScrollBottom => Some("回到最新消息"),
            TuiAction::ScrollLineUp => None,
            TuiAction::ScrollLineDown => None,
            TuiAction::CursorWordLeft => None,
            TuiAction::CursorWordRight => None,
            TuiAction::CursorLeft => None,
            TuiAction::CursorRight => None,
            TuiAction::Previous => Some("上一条输入 / 上一项"),
            TuiAction::Next => Some("下一条输入 / 下一项"),
            TuiAction::Complete => Some("补全斜杠命令"),
            TuiAction::CursorLineStart => None,
            TuiAction::CursorLineEnd => None,
            TuiAction::DeleteWordLeft => None,
            TuiAction::Backspace => None,
            TuiAction::Delete => None,
            TuiAction::InsertNewline => Some("插入换行"),
            TuiAction::Submit => Some("发送消息 / 确认"),
        }
    }
}

/// One of the keys of the action is pressed.
pub open spec fn triggers(action: TuiAction, event: KeyEvent) -> bool {
    exists|i: int|
        0 <= i < keys_of(action).len() && presses(#[trigger] keys_of(action)[i], event)
}

/// The first action from `from` on that the key triggers.
pub open spec fn first_triggered(actions: Seq<TuiAction>, from: int, event: KeyEvent) -> Option<
    TuiAction,
>
    decreases actions.len() - from,
{
    if from < 0 || from >= actions.len() {
        None
    } else if triggers(actions[from], event) {
        Some(actions[from])
    } else {
        first_triggered(actions, from + 1, event)
    }
}

fn is_triggered(action: TuiAction, event: KeyEvent) -> (r: bool)
    ensures
        r == triggers(action, event),
{
    let keys = action.shortcuts();
    let mut i: usize = 0;
    while i < keys.len()
        invariant
            i <= keys@.len(),
            keys@ == keys_of(action),
            forall|k: int| 0 <= k < i ==> !presses(#[trigger] keys_of(action)[k], event),
        decreases keys@.len() - i,
    {
        if keys[i].matches(event) {
            assert(presses(keys_of(action)[i as int], event));
            return true;
        }
        i = i + 1;
    }
    false
}

/// The action that a key triggers.
pub fn resolve(event: KeyEvent) -> (r: Option<TuiAction>)
    ensures
        r == first_triggered(action_order(), 0, event),
{
    let all = actions();
    let mut i: usize = 0;
    while i < all.len()
        invariant
            i <= all@.len(),
            all@ == action_order(),
            first_triggered(action_order(), 0, event) == first_triggered(
                action_order(),
                i as int,
                event,
            ),
        decreases all@.len() - i,
    {
        if is_triggered(all[i], event) {
            return Some(all[i]);
        }
        i = i + 1;
    }
    None
}

/// The answer that a key gives to a question: yes on `y`, no on `n` and on the enter key, and
/// none while another key than shift is held.
pub open spec fn decision(event: KeyEvent) -> Option<bool> {
    if event.modifiers.control || event.modifiers.alt || event.modifiers.command {
        None
    } else if event.code == KeyCode::Char('y') || event.code == KeyCode::Char('Y') {
        Some(true)
    } else if event.code == KeyCode::Char('n') || event.code == KeyCode::Char('N') || event.code
        == KeyCode::Enter {
        Some(false)
    } else {
        None
    }
}

/// The answer that a key gives to a question.
pub fn approval_decision(event: KeyEvent) -> (r: Option<bool>)
    ensures
        r == decision(event),
{
    if event.modifiers.control || event.modifiers.alt || event.modifiers.command {
        return None;
    }
    match event.code {
        KeyCode::Char(c) => if c == 'y' || c == 'Y' {
            Some(true)
        } else if c == 'n' || c == 'N' {
            Some(false)
        } else {
            None
        },
        KeyCode::Enter => Some(false),
        _ => None,
    }
}

/// The entries of the help for some actions.
pub open spec fn entries_of(actions: Seq<TuiAction>) -> Seq<(Seq<char>, Seq<char>)>
    decreases actions.len(),
{
    if actions.len() == 0 {
        Seq::empty()
    } else {
        let rest = entries_of(actions.drop_last());
        match help_of(actions.last()) {
            Some(help) => rest.push((display_of(actions.last()), help)),
            None => rest,
        }
    }
}

/// What a list of entries says.
pub open spec fn entry_views(v: Seq<(&'static str, &'static str)>) -> Seq<(Seq<char>, Seq<char>)> {
    Seq::new(v.len(), |i: int| (v[i].0@, v[i].1@))
}

/// The entries of the help: the keys and what they do, for each action that it names.
pub fn help_entries() -> (r: Vec<(&'static str, &'static str)>)
    ensures
        entry_views(r@) == entries_of(action_order()),
{
    let all = actions();
    let ghost order = action_order();
    let mut out: Vec<(&'static str, &'static str)> = Vec::new();
    let mut i: usize = 0;
    assert(order.take(0) =~= Seq::<TuiAction>::empty());
    assert(entry_views(out@) =~= Seq::<(Seq<char>, Seq<char>)>::empty());
    while i < all.len()
        invariant
            i <= all@.len(),
            all@ == order,
            entry_views(out@) == entries_of(order.take(i as int)),
        decreases all@.len() - i,
    {
        proof {
            assert(order.take(i + 1).drop_last() =~= order.take(i as int));
            assert(order.take(i + 1).last() == order[i as int]);
        }
        let action = all[i];
        if let Some(help) = action.help() {
            let ghost before = entry_views(out@);
            out.push((action.display(), help));
            assert(entry_views(out@) =~= before.push((display_of(action), help@)));
        }
        i = i + 1;
    }
    assert(order.take(i as int) =~= order);
    out
}

/// What each key is bound to.
spec fn bound(event: KeyEvent) -> Option<TuiAction> {
    let m = event.modifiers;
    let c = KeyModifiers { shift: false, ..m };
    match event.code {
        KeyCode::Esc => if m == KeyModifiers::none() {
            Some(TuiAction::Escape)
        } else {
            None
        },
        KeyCode::F(n) => if n == 1 && m == KeyModifiers::none() {
            Some(TuiAction::ToggleHelp)
        } else {
            None
        },
        KeyCode::PageUp => if m == KeyModifiers::none() {
            Some(TuiAction::PageUp)
        } else {
            None
        },
        KeyCode::PageDown => if m == KeyModifiers::none() {
            Some(TuiAction::PageDown)
        } else {
            None
        },
        KeyCode::Home => if m == KeyModifiers::ctrl() {
            Some(TuiAction::ScrollTop)
        } else if m == KeyModifiers::none() {
            Some(TuiAction::CursorLineStart)
        } else {
            None
        },
        KeyCode::End => if m == KeyModifiers::ctrl() {
            Some(TuiAction::ScrollBottom)
        } else if m == KeyModifiers::none() {
            Some(TuiAction::CursorLineEnd)
        } else {
            None
        },
        KeyCode::Up => if m == KeyModifiers::ctrl() {
            Some(TuiAction::ScrollLineUp)
        } else if m == KeyModifiers::none() {
            Some(TuiAction::Previous)
        } else {
            None
        },
        KeyCode::Down => if m == KeyModifiers::ctrl() {
            Some(TuiAction::ScrollLineDown)
        } else if m == KeyModifiers::none() {
            Some(TuiAction::Next)
        } else {
            None
        },
        KeyCode::Left => if m == KeyModifiers::ctrl() {
            Some(TuiAction::CursorWordLeft)
        } else if m == KeyModifiers::alt() {
            Some(TuiAction::CursorWordLeft)
        } else if m == KeyModifiers::none() {
            Some(TuiAction::CursorLeft)
        } else {
            None
        },
        KeyCode::Right => if m == KeyModifiers::ctrl() {
            Some(TuiAction::CursorWordRight)
        } else if m == KeyModifiers::alt() {
            Some(TuiAction::CursorWordRight)
        } else if m == KeyModifiers::none() {
            Some(TuiAction::CursorRight)
        } else {
            None
        },
        KeyCode::Tab => if m == KeyModifiers::none() {
            Some(TuiAction::Complete)
        } else {
            None
        },
        KeyCode::BackTab => if m == KeyModifiers::none() {
            Some(TuiAction::Complete)
        } else if m == KeyModifiers::shift() {
            Some(TuiAction::Complete)
        } else {
            None
        },
        KeyCode::Backspace => if m == KeyModifiers::ctrl() {
            Some(TuiAction::DeleteWordLeft)
        } else if m == KeyModifiers::alt() {
            Some(TuiAction::DeleteWordLeft)
        } else if m == KeyModifiers::none() {
            Some(TuiAction::Backspace)
        } else {
            None
        },
        KeyCode::Delete => if m == KeyModifiers::none() {
            Some(TuiAction::Delete)
        } else {
            None
        },
        KeyCode::Enter => if m == KeyModifiers::alt() {
            Some(TuiAction::InsertNewline)
        } else if m == KeyModifiers::none() {
            Some(TuiAction::Submit)
        } else {
            None
        },
        KeyCode::Char(x) => if c != KeyModifiers::ctrl() {
            None
        } else if x == '/' {
            Some(TuiAction::ToggleHelp)
        } else if x == 't' {
            Some(TuiAction::ToggleToolDetails)
        } else if x == 'u' {
            Some(TuiAction::ClearInput)
        } else if x == 'k' {
            Some(TuiAction::ClearQueue)
        } else if x == 'c' {
            Some(TuiAction::CancelTurn)
        } else if x == 'a' {
            Some(TuiAction::CursorLineStart)
        } else if x == 'e' {
            Some(TuiAction::CursorLineEnd)
        } else if x == 'w' {
            Some(TuiAction::DeleteWordLeft)
        } else if x == 'd' {
            Some(TuiAction::Delete)
        } else if x == 'j' {
            Some(TuiAction::InsertNewline)
        } else {
            None
        },
        _ => None,
    }
}

proof fn lemma_bound(action: TuiAction, event: KeyEvent)
    requires
        triggers(action, event),
    ensures
        bound(event) == Some(action),
{
    let i = choose|i: int|
        0 <= i < keys_of(action).len() && presses(#[trigger] keys_of(action)[i], event);
    assert(presses(keys_of(action)[i], event));
    match action {
        TuiAction::Escape => {
            assert(keys_of(action).len() == 1);
        },
        TuiAction::ToggleHelp => {
            assert(keys_of(action).len() == 2);
        },
        TuiAction::PageUp => {
            assert(keys_of(action).len() == 1);
        },
        TuiAction::PageDown => {
            assert(keys_of(action).len() == 1);
        },
        TuiAction::ToggleToolDetails => {
            assert(keys_of(action).len() == 1);
        },
        TuiAction::ClearInput => {
            assert(keys_of(action).len() == 1);
        },
        TuiAction::ClearQueue => {
            assert(keys_of(action).len() == 1);
        },
        TuiAction::CancelTurn => {
            assert(keys_of(action).len() == 1);
        },
        TuiAction::ScrollTop => {
            assert(keys_of(action).len() == 1);
        },
        TuiAction::ScrollBottom => {
            assert(keys_of(action).len() == 1);
        },
        TuiAction::ScrollLineUp => {
            assert(keys_of(action).len() == 1);
        },
        TuiAction::ScrollLineDown => {
            assert(keys_of(action).len() == 1);
        },
        TuiAction::CursorWordLeft => {
            assert(keys_of(action).len() == 2);
        },
        TuiAction::CursorWordRight => {
            assert(keys_of(action).len() == 2);
        },
        TuiAction::CursorLeft => {
            assert(keys_of(action).len() == 1);
        },
        TuiAction::CursorRight => {
            assert(keys_of(action).len() == 1);
        },
        TuiAction::Previous => {
            assert(keys_of(action).len() == 1);
        },
        TuiAction::Next => {
            assert(keys_of(action).len() == 1);
        },
        TuiAction::Complete => {
            assert(keys_of(action).len() == 3);
        },
        TuiAction::CursorLineStart => {
            assert(keys_of(action).len() == 2);
        },
        TuiAction::CursorLineEnd => {
            assert(keys_of(action).len() == 2);
        },
        TuiAction::DeleteWordLeft => {
            assert(keys_of(action).len() == 3);
        },
        TuiAction::Backspace => {
            assert(keys_of(action).len() == 1);
        },
        TuiAction::Delete => {
            assert(keys_of(action).len() == 2);
        },
        TuiAction::InsertNewline => {
            assert(keys_of(action).len() == 2);
        },
        TuiAction::Submit => {
            assert(keys_of(action).len() == 1);
        },
    }
}

/// No key is bound to two actions.
pub proof fn law_keys_do_not_clash(a: TuiAction, b: TuiAction, event: KeyEvent)
    requires
        triggers(a, event),
        triggers(b, event),
    ensures
        a == b,
{
    lemma_bound(a, event);
    lemma_bound(b, event);
}

/// A key does what it is bound to: the action that is found is triggered by the key, and
/// where none is found no action of the list is.
pub proof fn law_keys_do_what_they_are_bound_to(actions: Seq<TuiAction>, from: int, event: KeyEvent)
    requires
        0 <= from <= actions.len(),
    ensures
        first_triggered(actions, from, event) matches Some(a) ==> triggers(a, event)
            && actions.contains(a),
        first_triggered(actions, from, event) is None ==> forall|i: int|
            from <= i < actions.len() ==> !triggers(#[trigger] actions[i], event),
    decreases actions.len() - from,
{
    if from < actions.len() && !triggers(actions[from], event) {
        law_keys_do_what_they_are_bound_to(actions, from + 1, event);
    }
}

/// Every key that is bound is looked for: an action that a key triggers is found, or the one
/// that it shares the key with.
pub proof fn law_bound_keys_are_found(action: TuiAction, event: KeyEvent)
    requires
        triggers(action, event),
        action_order().contains(action),
    ensures
        first_triggered(action_order(), 0, event) == Some(action),
{
    law_keys_do_what_they_are_bound_to(action_order(), 0, event);
    match first_triggered(action_order(), 0, event) {
        Some(a) => law_keys_do_not_clash(a, action, event),
        None => {
            let i = choose|i: int|
                0 <= i < action_order().len() && action_order()[i] == action;
            assert(!triggers(action_order()[i], event));
        },
    }
}

/// A question is allowed by y alone, in either case; it is refused by n and by the key that
/// sends a line; a key that is held with another decides nothing.
pub proof fn law_decisions(event: KeyEvent)
    ensures
        decision(event) == Some(true) ==> event.code == KeyCode::Char('y') || event.code
            == KeyCode::Char('Y'),
        decision(event) == Some(false) ==> event.code == KeyCode::Char('n') || event.code
            == KeyCode::Char('N') || event.code == KeyCode::Enter,
        event.modifiers.control || event.modifiers.alt || event.modifiers.command ==> decision(
            event,
        ) is None,
        !event.modifiers.control && !event.modifiers.alt && !event.modifiers.command && event.code
            == KeyCode::Char('y') ==> decision(event) == Some(true),
        !event.modifiers.control && !event.modifiers.alt && !event.modifiers.command && event.code
            == KeyCode::Enter ==> decision(event) == Some(false),
{
}

/// The help tells of each action that has one, in order, with its keys.
pub proof fn law_help_tells_the_keys(a: Seq<TuiAction>, b: Seq<TuiAction>, action: TuiAction)
    ensures
        entries_of(a + b) == entries_of(a) + entries_of(b),
        help_of(action) is Some ==> entries_of(seq![action]) == seq![
            (display_of(action), help_of(action)->0),
        ],
        help_of(action) is None ==> entries_of(seq![action]).len() == 0,
    decreases b.len(),
{
    assert(seq![action].drop_last() =~= Seq::<TuiAction>::empty());
    reveal_with_fuel(entries_of, 2);
    if help_of(action) is Some {
        assert(entries_of(seq![action]) =~= seq![(display_of(action), help_of(action)->0)]);
    }
    if b.len() == 0 {
        assert(a + b =~= a);
    } else {
        law_help_tells_the_keys(a, b.drop_last(), action);
        assert((a + b).drop_last() =~= a + b.drop_last());
        assert((a + b).last() == b.last());
    }
    assert(entries_of(a + b) =~= entries_of(a) + entries_of(b));
}

} // verus!
