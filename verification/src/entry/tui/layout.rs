//! Where the parts of the terminal stand, and what its single lines say.
use vstd::prelude::*;

use crate::entry::tui;
use crate::entry::tui::input_editor;
use crate::entry::tui::keybindings;
use crate::entry::tui::view;
use crate::entry::tui::view::{Look, Span, SpanView, Tone};
use crate::entry::tui::{ActivityPhase, TuiState, TuiView};
use crate::text;

verus! {

/// A rectangle of the terminal.
#[derive(Clone, Copy, Debug, PartialEq, Eq, Structural)]
pub struct Area {
    pub x: u16,
    pub y: u16,
    pub width: u16,
    pub height: u16,
}

impl Area {
    /// The rectangle ends within the numbers of the terminal.
    pub open spec fn wf(self) -> bool {
        self.x + self.width <= u16::MAX && self.y + self.height <= u16::MAX
    }
}

/// The lesser of two numbers.
pub open spec fn least(a: int, b: int) -> int {
    if a < b {
        a
    } else {
        b
    }
}

/// The greater of two numbers.
pub open spec fn most(a: int, b: int) -> int {
    if a < b {
        b
    } else {
        a
    }
}

fn lesser(a: u16, b: u16) -> (r: u16)
    ensures
        r == least(a as int, b as int),
{
    if a < b {
        a
    } else {
        b
    }
}

fn greater(a: u16, b: u16) -> (r: u16)
    ensures
        r == most(a as int, b as int),
{
    if a < b {
        b
    } else {
        a
    }
}

/// What is shown where the terminal is too small.
#[verifier::allow_in_spec]
pub fn too_small_text() -> (r: &'static str)
    returns
        "请放大终端\n至少 24 列 × 12 行\nEsc 退出",
{
    "请放大终端\n至少 24 列 × 12 行\nEsc 退出"
}

/// The rectangle that everything stands in, and the heights of its changing parts.
#[derive(Clone, Copy, Debug, PartialEq, Eq, Structural)]
pub struct Plan {
    pub content: Area,
    pub approval_height: u16,
    pub slash_height: u16,
    pub input_height: u16,
}

/// The width that everything stands in, on a terminal of the given width.
pub fn content_width(width: u16) -> (r: u16)
    ensures
        r == least(most(width - 4, 0), 108),
{
    lesser(width.saturating_sub(4), 108)
}

/// The width of the text within a border and a margin.
pub fn text_width(width: u16) -> (r: u16)
    ensures
        r == most(width - 4, 0),
{
    width.saturating_sub(4)
}

/// How many rows of the line that is edited stand above what is shown: the last rows are.
pub fn rows_above(count: usize, height: u16) -> (r: usize)
    ensures
        r == most(count - height, 0),
        r <= count,
{
    count.saturating_sub(height as usize)
}

/// The rectangle that everything stands in.
pub open spec fn content_of(area: Area) -> Area {
    let width = least(area.width - 4, 108);
    Area {
        x: (area.x + (area.width - width) / 2) as u16,
        y: (area.y + 1) as u16,
        width: width as u16,
        height: (area.height - 2) as u16,
    }
}

/// The height of the line that is edited, with its border.
pub open spec fn input_height_of(height: int, rows: u16) -> int {
    let room = least(most(height / 2 - 2, 1), 8);
    least(most(rows as int, 1), room) + 2
}

/// The height of a question, with its border.
pub open spec fn approval_height_of(height: int, rows: int) -> int {
    if rows == 0 {
        0
    } else {
        most(least(rows + 4, most(height - 8, 0)), 4)
    }
}

/// The height of the list of commands, with its border: none where there is no room.
pub open spec fn slash_height_of(height: int, approval: int, input: int, commands: int) -> int {
    let room = most(height - (2 + 1 + approval + input + 2), 0);
    if commands == 0 || room < 3 {
        0
    } else {
        least(least(commands + 2, 22), room)
    }
}

/// Where things stand on a terminal, unless it is too small.
pub open spec fn plan_of(area: Area, input_rows: u16, approval_rows: u16, commands: u16) -> Option<
    Plan,
> {
    if area.width < 24 || area.height < 12 {
        None
    } else {
        let content = content_of(area);
        let height = content.height as int;
        let approval = approval_height_of(height, approval_rows as int);
        let input = input_height_of(height, input_rows);
        Some(
            Plan {
                content,
                approval_height: approval as u16,
                slash_height: slash_height_of(height, approval, input, commands as int) as u16,
                input_height: input as u16,
            },
        )
    }
}

/// Where things stand on a terminal, unless it is too small.
pub fn plan(area: Area, input_rows: u16, approval_rows: u16, commands: u16) -> (r: Option<Plan>)
    requires
        area.wf(),
        approval_rows + 4 <= u16::MAX,
        commands + 2 <= u16::MAX,
    ensures
        r == plan_of(area, input_rows, approval_rows, commands),
{
    if area.width < 24 || area.height < 12 {
        return None;
    }
    let width: u16 = content_width(area.width);
    let content = Area {
        x: area.x + (area.width - width) / 2,
        y: area.y + 1,
        width,
        height: area.height - 2,
    };
    let room: u16 = lesser(greater((content.height / 2).saturating_sub(2), 1), 8);
    let input_height: u16 = lesser(greater(input_rows, 1), room) + 2;
    let approval_height: u16 = if approval_rows == 0 {
        0
    } else {
        greater(lesser(approval_rows + 4, content.height.saturating_sub(8)), 4)
    };
    let taken: u32 = 5 + approval_height as u32 + input_height as u32;
    let available: u16 = if (content.height as u32) < taken {
        0
    } else {
        (content.height as u32 - taken) as u16
    };
    let slash_height: u16 = if commands == 0 || available < 3 {
        0
    } else {
        lesser(lesser(commands + 2, 22), available)
    };
    Some(Plan { content, approval_height, slash_height, input_height })
}

/// A plan stays within the terminal. Where there is no question, or where commands are listed,
/// the parts leave a row for the transcript.
pub proof fn law_parts_fit(area: Area, input_rows: u16, approval_rows: u16, commands: u16)
    requires
        area.wf(),
        approval_rows + 4 <= u16::MAX,
        commands + 2 <= u16::MAX,
        area.width >= 24,
        area.height >= 12,
    ensures
        ({
            let p = plan_of(area, input_rows, approval_rows, commands)->0;
            &&& p.content.wf()
            &&& area.x <= p.content.x
            &&& p.content.x + p.content.width <= area.x + area.width
            &&& p.content.y + p.content.height < area.y + area.height
            &&& approval_rows == 0 || p.slash_height > 0 ==> fits(p)
        }),
{
}

/// The heights of the first `n` parts together.
pub open spec fn rows_of(h: Seq<u16>, n: int) -> int
    decreases n,
{
    if n <= 0 {
        0
    } else {
        rows_of(h, n - 1) + h[n - 1]
    }
}

/// Parts with the given heights one below the other, the second of which takes what is left.
pub open spec fn stacked(whole: Area, h: Seq<u16>) -> Seq<Area> {
    let left = whole.height - rows_of(h, h.len() as int);
    Seq::new(
        h.len(),
        |i: int|
            Area {
                x: whole.x,
                y: (whole.y + rows_of(h, i) + if i > 1 {
                    left
                } else {
                    0
                }) as u16,
                width: whole.width,
                height: (h[i] + if i == 1 {
                    left
                } else {
                    0
                }) as u16,
            },
    )
}

/// `Layout::vertical(..).split(..)` for parts with the given heights, the second of which is
/// the least height of the part that takes what is left. There is one part for each height,
/// and all lie within the whole and have its width. Where the heights fit, each part has its
/// height and the parts stand one below the other. Where they do not, the parts still stand in
/// their order from top to bottom, because that no two parts overlap weighs more than that a
/// part has its height; how the solver shares out the rows is then not stated.
#[verifier::external_body]
fn split_rows(whole: Area, h: [u16; 7]) -> (r: Vec<Area>)
    requires
        whole.wf(),
    ensures
        r@.len() == h@.len(),
        forall|i: int|
            0 <= i < r@.len() ==> (#[trigger] r@[i]).x == whole.x && r@[i].width == whole.width
                && whole.y <= r@[i].y && r@[i].y + r@[i].height <= whole.y + whole.height,
        rows_of(h@, h@.len() as int) <= whole.height ==> r@ == stacked(whole, h@),
        h@[1] <= whole.height ==> forall|i: int|
            0 < i < r@.len() ==> r@[i - 1].y + r@[i - 1].height <= (#[trigger] r@[i]).y,
{
    ratatui::layout::Layout::vertical(
        [
            ratatui::layout::Constraint::Length(h[0]),
            ratatui::layout::Constraint::Min(h[1]),
            ratatui::layout::Constraint::Length(h[2]),
            ratatui::layout::Constraint::Length(h[3]),
            ratatui::layout::Constraint::Length(h[4]),
            ratatui::layout::Constraint::Length(h[5]),
            ratatui::layout::Constraint::Length(h[6]),
        ],
    ).split(ratatui::layout::Rect::new(whole.x, whole.y, whole.width, whole.height)).iter().map(
        |a| Area { x: a.x, y: a.y, width: a.width, height: a.height },
    ).collect()
}

/// The rectangles of the parts: the heading, the transcript, the question, the list of
/// commands, the line that is edited, the state and the footer.
#[derive(Clone, Copy, Debug, PartialEq, Eq, Structural)]
pub struct Regions {
    pub header: Area,
    pub transcript: Area,
    pub approval: Area,
    pub slash: Area,
    pub input: Area,
    pub status: Area,
    pub footer: Area,
}

/// The parts of a plan fit below each other.
pub open spec fn fits(plan: Plan) -> bool {
    2 + 1 + plan.approval_height + plan.slash_height + plan.input_height + 2
        <= plan.content.height
}

/// Rows of a rectangle.
pub open spec fn rows_at(whole: Area, from: int, height: int) -> Area {
    Area { x: whole.x, y: (whole.y + from) as u16, width: whole.width, height: height as u16 }
}

/// Where the parts of a plan stand, where they fit: the transcript takes what the others leave.
pub open spec fn regions_of(plan: Plan) -> Regions {
    let whole = plan.content;
    let h = whole.height as int;
    let input = plan.input_height as int;
    let slash = plan.slash_height as int;
    let approval = plan.approval_height as int;
    Regions {
        header: rows_at(whole, 0, 2),
        transcript: rows_at(whole, 2, h - 4 - input - slash - approval),
        approval: rows_at(whole, h - 2 - input - slash - approval, approval),
        slash: rows_at(whole, h - 2 - input - slash, slash),
        input: rows_at(whole, h - 2 - input, input),
        status: rows_at(whole, h - 2, 1),
        footer: rows_at(whole, h - 1, 1),
    }
}

/// A rectangle lies within another and has its width.
pub open spec fn spans(part: Area, whole: Area) -> bool {
    &&& part.x == whole.x
    &&& part.width == whole.width
    &&& whole.y <= part.y
    &&& part.y + part.height <= whole.y + whole.height
}

/// The first rectangle ends where the second begins, or above.
pub open spec fn above(a: Area, b: Area) -> bool {
    a.y + a.height <= b.y
}

/// The parts stand in their order from top to bottom.
pub open spec fn in_order(r: Regions) -> bool {
    &&& above(r.header, r.transcript)
    &&& above(r.transcript, r.approval)
    &&& above(r.approval, r.slash)
    &&& above(r.slash, r.input)
    &&& above(r.input, r.status)
    &&& above(r.status, r.footer)
}

/// The parts, from top to bottom, as what they are for.
pub fn regions_of_parts(parts: &Vec<Area>) -> (r: Regions)
    requires
        parts@.len() == 7,
    ensures
        r.header == parts@[0],
        r.transcript == parts@[1],
        r.approval == parts@[2],
        r.slash == parts@[3],
        r.input == parts@[4],
        r.status == parts@[5],
        r.footer == parts@[6],
{
    Regions {
        header: parts[0],
        transcript: parts[1],
        approval: parts[2],
        slash: parts[3],
        input: parts[4],
        status: parts[5],
        footer: parts[6],
    }
}

/// The heights that the parts of a plan ask for, from top to bottom. The transcript, which is
/// the second, asks for one row and takes what the others leave.
pub open spec fn heights_of(plan: Plan) -> Seq<u16> {
    seq![2, 1, plan.approval_height, plan.slash_height, plan.input_height, 1, 1]
}

/// The heights that the parts of a plan ask for, whether or not they fit.
pub fn row_heights(plan: Plan) -> (r: [u16; 7])
    ensures
        r@ == heights_of(plan),
{
    let r: [u16; 7] = [2, 1, plan.approval_height, plan.slash_height, plan.input_height, 1, 1];
    assert(r@ =~= heights_of(plan));
    r
}

/// Where the parts of a plan stand: within its rectangle, in their order from top to bottom,
/// and where they fit, each with its height.
pub fn regions(plan: Plan) -> (r: Regions)
    requires
        plan.content.wf(),
    ensures
        spans(r.header, plan.content),
        spans(r.transcript, plan.content),
        spans(r.approval, plan.content),
        spans(r.slash, plan.content),
        spans(r.input, plan.content),
        spans(r.status, plan.content),
        spans(r.footer, plan.content),
        plan.content.height > 0 ==> in_order(r),
        fits(plan) ==> r == regions_of(plan),
{
    let parts = split_rows(plan.content, row_heights(plan));
    proof {
        reveal_with_fuel(rows_of, 8);
    }
    regions_of_parts(&parts)
}

/// The last part of a path, or a word for it.
pub open spec fn workspace_name(path: Seq<char>) -> Seq<char> {
    let name = after_slash(path);
    if name.len() == 0 {
        "workspace"@
    } else {
        name
    }
}

/// What follows the last slash.
pub open spec fn after_slash(path: Seq<char>) -> Seq<char>
    decreases path.len(),
{
    if path.len() == 0 || path.last() == '/' {
        Seq::empty()
    } else {
        after_slash(path.drop_last()).push(path.last())
    }
}

proof fn lemma_after_slash(path: Seq<char>, n: int)
    requires
        0 <= n <= path.len(),
        n == 0 || path[n - 1] == '/',
        forall|k: int| n <= k < path.len() ==> #[trigger] path[k] != '/',
    ensures
        after_slash(path) == path.skip(n),
    decreases path.len(),
{
    if n < path.len() {
        let front = path.drop_last();
        assert(path.last() == path[path.len() - 1]);
        assert forall|k: int| n <= k < front.len() implies #[trigger] front[k] != '/' by {
            assert(front[k] == path[k]);
        }
        lemma_after_slash(front, n);
        assert(front.skip(n).push(path.last()) =~= path.skip(n));
    } else {
        if n > 0 {
            assert(path.last() == path[n - 1]);
        }
        assert(path.skip(n) =~= Seq::<char>::empty());
    }
}

fn name_workspace(path: &str) -> (r: String)
    ensures
        r@ == workspace_name(path@),
{
    let v = text::chars_of(path);
    let mut n: usize = v.len();
    while n > 0 && v[n - 1] != '/'
        invariant
            n <= v@.len(),
            forall|k: int| n <= k < v@.len() ==> #[trigger] v@[k] != '/',
        decreases n,
    {
        n = n - 1;
    }
    proof {
        lemma_after_slash(v@, n as int);
        assert(v@.skip(n as int) =~= v@.subrange(n as int, v@.len() as int));
    }
    if n == v.len() {
        "workspace".to_owned()
    } else {
        text::string_of_range(v.as_slice(), n, v.len())
    }
}

fn piece(s: &str, look: Look) -> (r: Span)
    ensures
        r@ == (SpanView { text: s@, look }),
{
    Span { text: s.to_owned(), look }
}

fn look(tone: Tone, bold: bool) -> (r: Look)
    ensures
        r == (Look { tone, bold, panel: false }),
{
    Look { tone, bold, panel: false }
}

fn two(a: &str, b: &str) -> (r: String)
    ensures
        r@ == a@ + b@,
{
    let mut r = a.to_owned();
    r.append(b);
    r
}

/// The heading.
pub open spec fn header_of(t: TuiView) -> Seq<Seq<SpanView>> {
    seq![
        seq![
            SpanView { text: "✦ my-agent"@, look: view::strong(Tone::Info) },
            SpanView { text: "  ·  "@, look: view::plain(Tone::Border) },
            SpanView { text: workspace_name(t.workspace), look: view::plain(Tone::Foreground) },
            SpanView {
                text: "  ·  session "@ + view::shortened(t.session_id, 18),
                look: view::plain(Tone::Muted),
            },
        ],
        seq![
            SpanView {
                text: "Web "@ + t.web_url + " · /web 打开   ·   Ctrl+/ 查看快捷键"@,
                look: view::plain(Tone::Muted),
            },
        ],
    ]
}

/// The heading.
pub fn header_lines(state: &TuiState) -> (r: Vec<Vec<Span>>)
    ensures
        view::lines_view(r@) == header_of(state@),
{
    let session = view::short_id(state.session_id.as_str(), 18);
    let mut first: Vec<Span> = Vec::new();
    first.push(piece("✦ my-agent", look(Tone::Info, true)));
    first.push(piece("  ·  ", look(Tone::Border, false)));
    first.push(
        piece(name_workspace(state.workspace.as_str()).as_str(), look(Tone::Foreground, false)),
    );
    first.push(
        piece(two("  ·  session ", session.as_str()).as_str(), look(Tone::Muted, false)),
    );
    let mut web = two("Web ", state.web_url.as_str());
    web.append(" · /web 打开   ·   Ctrl+/ 查看快捷键");
    let mut second: Vec<Span> = Vec::new();
    second.push(piece(web.as_str(), look(Tone::Muted, false)));
    let ghost wanted = header_of(state@);
    assert(view::line_view(first@) =~= wanted[0]);
    assert(view::line_view(second@) =~= wanted[1]);
    let mut r: Vec<Vec<Span>> = Vec::new();
    r.push(first);
    r.push(second);
    assert(view::lines_view(r@) =~= wanted);
    r
}

/// What an empty transcript shows.
pub open spec fn welcome() -> Seq<Seq<SpanView>> {
    seq![
        Seq::empty(),
        view::one("从一个想法开始。"@, view::plain(Tone::Foreground)),
        Seq::empty(),
        view::one("  读取 README，帮我了解这个项目"@, view::plain(Tone::Muted)),
        view::one("  先制定计划，再为项目补充测试"@, view::plain(Tone::Muted)),
        view::one("  调研配置读取位置，只返回结论"@, view::plain(Tone::Muted)),
        Seq::empty(),
        view::one("  /resume  恢复历史会话"@, view::plain(Tone::Muted)),
    ]
}

fn single(s: &str, tone: Tone) -> (r: Vec<Span>)
    ensures
        view::line_view(r@) == view::one(s@, view::plain(tone)),
{
    let mut r: Vec<Span> = Vec::new();
    r.push(piece(s, look(tone, false)));
    assert(view::line_view(r@) =~= view::one(s@, view::plain(tone)));
    r
}

/// What an empty transcript shows.
pub fn welcome_lines() -> (r: Vec<Vec<Span>>)
    ensures
        view::lines_view(r@) == welcome(),
{
    let mut r: Vec<Vec<Span>> = Vec::new();
    let empty: Vec<Span> = Vec::new();
    assert(view::line_view(empty@) =~= Seq::<SpanView>::empty());
    r.push(empty);
    r.push(single("从一个想法开始。", Tone::Foreground));
    let empty: Vec<Span> = Vec::new();
    assert(view::line_view(empty@) =~= Seq::<SpanView>::empty());
    r.push(empty);
    r.push(single("  读取 README，帮我了解这个项目", Tone::Muted));
    r.push(single("  先制定计划，再为项目补充测试", Tone::Muted));
    r.push(single("  调研配置读取位置，只返回结论", Tone::Muted));
    let empty: Vec<Span> = Vec::new();
    assert(view::line_view(empty@) =~= Seq::<SpanView>::empty());
    r.push(empty);
    r.push(single("  /resume  恢复历史会话", Tone::Muted));
    assert(view::lines_view(r@) =~= welcome());
    r
}

/// The first row of the transcript that is shown, of so many rows.
pub open spec fn start_of(t: TuiView, lines: int, viewport: int, anchor: Option<usize>) -> int {
    let furthest = most(lines - viewport, 0);
    match (anchor, t.preserve_transcript_start) {
        (Some(n), _) => least(n as int, furthest),
        (None, Some(n)) => least(n as int, furthest),
        (None, None) => if t.follow_bottom {
            furthest
        } else {
            furthest - least(t.scroll as int, furthest)
        },
    }
}

/// The terminal once its transcript stands: it begins where the message that is kept in sight
/// begins, else where it began, else at the end or as far from it as the reader went.
pub open spec fn placed(t: TuiView, lines: int, viewport: int, anchor: Option<usize>) -> TuiView {
    let furthest = most(lines - viewport, 0);
    let start = start_of(t, lines, viewport, anchor);
    let kept = anchor is Some || t.preserve_transcript_start is Some;
    let scroll = if !kept && t.follow_bottom {
        0
    } else {
        furthest - start
    };
    TuiView {
        preserve_message_id: None,
        preserve_transcript_start: None,
        scroll: scroll as usize,
        follow_bottom: if kept {
            scroll == 0
        } else {
            t.follow_bottom
        },
        unread_messages: if kept && scroll == 0 {
            0
        } else {
            t.unread_messages
        },
        transcript_start: start as usize,
        ..t
    }
}

/// The terminal once a question stands: it is scrolled no further than its end.
pub open spec fn question_placed(t: TuiView, lines: int, visible: int) -> TuiView {
    TuiView {
        approval_scroll: least(t.approval_scroll as int, most(lines - visible, 0)) as usize,
        ..t
    }
}

impl TuiState {
    /// Places the transcript, and gives its first row that is shown.
    pub fn place_transcript(&mut self, lines: usize, viewport: usize, anchor: Option<usize>) -> (r:
        usize)
        requires
            old(self).wf(),
        ensures
            final(self).wf(),
            final(self)@ == placed(old(self)@, lines as int, viewport as int, anchor),
            r == start_of(old(self)@, lines as int, viewport as int, anchor),
    {
        let furthest: usize = lines.saturating_sub(viewport);
        let kept = match anchor {
            Some(n) => Some(n),
            None => self.preserve_transcript_start,
        };
        self.preserve_message_id = None;
        self.preserve_transcript_start = None;
        let start: usize = match kept {
            Some(n) => {
                let start: usize = if n < furthest {
                    n
                } else {
                    furthest
                };
                self.scroll = furthest - start;
                self.follow_bottom = self.scroll == 0;
                if self.follow_bottom {
                    self.unread_messages = 0;
                }
                start
            },
            None => {
                if self.follow_bottom {
                    self.scroll = 0;
                    furthest
                } else {
                    if self.scroll > furthest {
                        self.scroll = furthest;
                    }
                    furthest - self.scroll
                }
            },
        };
        self.transcript_start = start;
        assert(self@ =~= placed(old(self)@, lines as int, viewport as int, anchor));
        start
    }

    /// Places the question, and gives how many of its rows are shown in a part of that height.
    pub fn place_question(&mut self, lines: usize, height: u16) -> (r: usize)
        requires
            old(self).wf(),
        ensures
            final(self).wf(),
            r == most(height - 4, 0),
            final(self)@ == question_placed(old(self)@, lines as int, most(height - 4, 0)),
    {
        let visible: usize = height.saturating_sub(4) as usize;
        let furthest: usize = lines.saturating_sub(visible);
        if self.approval_scroll > furthest {
            self.approval_scroll = furthest;
        }
        assert(self@ =~= question_placed(old(self)@, lines as int, most(height - 4, 0)));
        visible
    }

    /// The title of the question.
    pub fn question_title(&self) -> (r: String)
        ensures
            r@ == " 确认 1/"@ + text::decimal(self@.pending_approvals.len())
                + " · PgUp/Dn 翻页 "@,
    {
        let mut r = two(
            " 确认 1/",
            text::decimal_text(self.pending_approvals.len() as u64).as_str(),
        );
        r.append(" · PgUp/Dn 翻页 ");
        r
    }

    /// The title of the line that is edited.
    pub fn input_title(&self) -> (r: String)
        ensures
            r@ == if self@.active_turns.len() > 0 {
                " 正在工作 "@ + text::decimal(self@.active_turns.len()) + " 轮 · 队列 "@
                    + text::decimal(self@.queued_count as nat) + " · 可以先起草下一条 "@
            } else {
                " 发送消息 "@
            },
    {
        if self.active_turns.len() > 0 {
            let mut r = two(
                " 正在工作 ",
                text::decimal_text(self.active_turns.len() as u64).as_str(),
            );
            r.append(" 轮 · 队列 ");
            r.append(text::decimal_text(self.queued_count as u64).as_str());
            r.append(" · 可以先起草下一条 ");
            r
        } else {
            " 发送消息 ".to_owned()
        }
    }

    /// The colour of the border of the line that is edited.
    pub fn input_border(&self) -> (r: Tone)
        ensures
            r == if self@.pending_approvals.len() > 0 {
                Tone::Border
            } else {
                Tone::Info
            },
    {
        if self.pending_approvals.len() > 0 {
            Tone::Border
        } else {
            Tone::Info
        }
    }

    /// Where the place in the line that is edited is shown: nowhere while a question is open.
    pub fn cursor_place(&self, inner: Area, skip: usize) -> (r: Option<(u16, u16)>)
        requires
            inner.wf(),
        ensures
            r == cursor_of(self@, inner, skip as int),
    {
        if self.pending_approvals.len() > 0 || inner.height == 0 {
            return None;
        }
        let (row, column) = self.input.visual_cursor(inner.width);
        let row: usize = row.saturating_sub(skip);
        let last_column: u16 = inner.width.saturating_sub(1);
        Some(
            (
                inner.x + lesser(column as u16, last_column),
                inner.y + lesser(row as u16, inner.height - 1),
            ),
        )
    }
}

/// Where the place in the line that is edited is shown.
pub open spec fn cursor_of(t: TuiView, inner: Area, skip: int) -> Option<(u16, u16)> {
    if t.pending_approvals.len() > 0 || inner.height == 0 {
        None
    } else {
        let place = input_editor::visual_place(
            input_editor::graphemes_of(t.input.text.take(t.input.cursor)),
            most(inner.width as int, 1),
        );
        let row = most(place.0 - skip, 0);
        Some(
            (
                (inner.x + least(place.1 as u16 as int, most(inner.width - 1, 0))) as u16,
                (inner.y + least(row as u16 as int, inner.height - 1)) as u16,
            ),
        )
    }
}

/// A transcript that follows its end shows its last row; one that is scrolled shows as many
/// rows less as it was scrolled, and never goes beyond its beginning.
pub proof fn law_transcript_stays_in_bounds(
    t: TuiView,
    lines: int,
    viewport: int,
    anchor: Option<usize>,
)
    requires
        0 <= lines <= usize::MAX,
        0 <= viewport,
    ensures
        ({
            let p = placed(t, lines, viewport, anchor);
            &&& p.transcript_start <= lines
            &&& p.transcript_start + p.scroll == most(lines - viewport, 0)
            &&& p.follow_bottom ==> p.scroll == 0
        }),
{
}

/// Once the transcript stands, placing it again changes nothing.
pub proof fn law_placing_again_changes_nothing(
    t: TuiView,
    lines: int,
    viewport: int,
    anchor: Option<usize>,
)
    requires
        0 <= lines <= usize::MAX,
        0 <= viewport,
    ensures
        ({
            let p = placed(t, lines, viewport, anchor);
            placed(p, lines, viewport, None) == p
        }),
{
    let p = placed(t, lines, viewport, anchor);
    assert(placed(p, lines, viewport, None) =~= p);
}

/// The part of the rows that is shown: from the first to before the second number.
pub fn shown_rows(count: usize, start: usize, viewport: usize) -> (r: (usize, usize))
    ensures
        r.0 == least(start as int, count as int),
        r.1 == least(start + viewport, count as int),
{
    let from: usize = if start < count {
        start
    } else {
        count
    };
    let to: usize = if viewport < count - from {
        from + viewport
    } else {
        count
    };
    (from, to)
}

/// The last row of a question: the keys that answer it.
pub fn question_keys() -> (r: Vec<Span>)
    ensures
        view::line_view(r@) == seq![
            (SpanView { text: "Y 允许一次"@, look: view::plain(Tone::Warm) }),
            (SpanView { text: "    N / Enter 拒绝"@, look: view::plain(Tone::Muted) }),
        ],
{
    let mut r: Vec<Span> = Vec::new();
    r.push(piece("Y 允许一次", look(Tone::Warm, false)));
    r.push(piece("    N / Enter 拒绝", look(Tone::Muted, false)));
    assert(view::line_view(r@) =~= seq![
        SpanView { text: "Y 允许一次"@, look: view::plain(Tone::Warm) },
        SpanView { text: "    N / Enter 拒绝"@, look: view::plain(Tone::Muted) },
    ]);
    r
}

/// What is shown where the line that is edited is empty.
pub const INPUT_HINT: &'static str = "描述你想做什么…";

/// The title of the list of commands.
pub const MENU_TITLE: &'static str = " 内置命令 · ↑↓ 选择 · Tab 补全 ";

/// What leads back to the end.
pub open spec fn pill_text(unread: usize) -> Seq<char> {
    if unread == 0 {
        "↥ 回到底部"@
    } else {
        "↥ "@ + text::decimal(unread as nat) + " 条新消息 · 回到底部"@
    }
}

/// The rectangle of what leads back to the end: in the middle of the last row.
pub open spec fn pill_area(region: Area, columns: u16) -> Area {
    let width = least(least(columns + 4, u16::MAX as int), region.width as int);
    Area {
        x: (region.x + (region.width - width) / 2) as u16,
        y: (region.y + most(region.height - 1, 0)) as u16,
        width: width as u16,
        height: 1,
    }
}

/// What leads back to the end, and where it stands.
pub fn pill(unread: usize, region: Area) -> (r: (String, Area))
    requires
        region.wf(),
    ensures
        r.0@ == pill_text(unread),
        r.1 == pill_area(region, input_editor::width_of(pill_text(unread)) as u16),
{
    let label = if unread == 0 {
        "↥ 回到底部".to_owned()
    } else {
        let mut label = two("↥ ", text::decimal_text(unread as u64).as_str());
        label.append(" 条新消息 · 回到底部");
        label
    };
    let columns: u16 = input_editor::display_width(label.as_str()) as u16;
    let width: u16 = lesser(columns.saturating_add(4), region.width);
    let area = Area {
        x: region.x + (region.width - width) / 2,
        y: region.y + region.height.saturating_sub(1),
        width,
        height: 1,
    };
    (label, area)
}

/// The inside of the line that is edited.
pub fn input_inner(area: Area) -> (r: Area)
    requires
        area.x + 2 <= u16::MAX,
        area.y + 1 <= u16::MAX,
    ensures
        r.x == area.x + 2,
        r.y == area.y + 1,
        r.width == most(area.width - 4, 0),
        r.height == most(area.height - 2, 0),
{
    Area {
        x: area.x + 2,
        y: area.y + 1,
        width: area.width.saturating_sub(4),
        height: area.height.saturating_sub(2),
    }
}

/// The footer.
pub open spec fn footer_of(commands: bool, width: u16) -> Seq<char> {
    if commands {
        "↑/↓ 选择命令 · Tab/Enter 补全 · 完整命令 Enter 执行 · Esc 关闭"@
    } else if width >= 90 {
        "Enter 发送 · Alt↵ 换行 · PgUp/Dn 翻页 · Ctrl+↑↓ 滚动 · Ctrl+End 回底 · Ctrl+/ 帮助 · Esc 退出"@
    } else if width >= 55 {
        "Enter 发送 · Ctrl+C 取消 · Ctrl+End 回底 · Ctrl+/ 帮助 · Esc 退出"@
    } else {
        "Enter 发送 · Ctrl+/ 帮助 · Esc 退出"@
    }
}

/// The footer.
pub fn footer(commands: bool, width: u16) -> (r: &'static str)
    ensures
        r@ == footer_of(commands, width),
{
    if commands {
        "↑/↓ 选择命令 · Tab/Enter 补全 · 完整命令 Enter 执行 · Esc 关闭"
    } else if width >= 90 {
        "Enter 发送 · Alt↵ 换行 · PgUp/Dn 翻页 · Ctrl+↑↓ 滚动 · Ctrl+End 回底 · Ctrl+/ 帮助 · Esc 退出"
    } else if width >= 55 {
        "Enter 发送 · Ctrl+C 取消 · Ctrl+End 回底 · Ctrl+/ 帮助 · Esc 退出"
    } else {
        "Enter 发送 · Ctrl+/ 帮助 · Esc 退出"
    }
}

/// The columns of the bar that moves.
pub const BAR_WIDTH: u64 = 8;

/// Where the head of the bar is: it goes from end to end and back.
pub open spec fn bar_head(tick: u64) -> int {
    let step = tick % 14;
    if step < 8 {
        step as int
    } else {
        14 - step
    }
}

/// The bar.
pub open spec fn bar_of(tick: u64) -> Seq<char> {
    Seq::new(
        8,
        |i: int|
            if i == bar_head(tick) || i + 1 == bar_head(tick) {
                '━'
            } else {
                '·'
            },
    )
}

/// The sign that turns.
pub open spec fn spinner_of(tick: u64) -> Seq<char> {
    if tick % 4 == 0 {
        "◐"@
    } else if tick % 4 == 1 {
        "◓"@
    } else if tick % 4 == 2 {
        "◑"@
    } else {
        "◒"@
    }
}

/// What shows that something goes on.
pub open spec fn indicator_of(tick: u64, show_bar: bool) -> Seq<char> {
    if show_bar {
        spinner_of(tick) + " ["@ + bar_of(tick) + "] "@
    } else {
        spinner_of(tick) + " "@
    }
}

/// What shows that something goes on.
pub fn indeterminate_indicator(tick: u64, show_bar: bool) -> (r: String)
    ensures
        r@ == indicator_of(tick, show_bar),
{
    let turn: u64 = tick % 4;
    let spinner = if turn == 0 {
        "◐"
    } else if turn == 1 {
        "◓"
    } else if turn == 2 {
        "◑"
    } else {
        "◒"
    };
    if !show_bar {
        return two(spinner, " ");
    }
    let cycle: u64 = BAR_WIDTH * 2 - 2;
    let step: u64 = tick % cycle;
    let head: u64 = if step < BAR_WIDTH {
        step
    } else {
        cycle - step
    };
    let mut r = two(spinner, " [");
    let ghost start = r@;
    let ghost bar = bar_of(tick);
    let mut i: u64 = 0;
    assert(r@ =~= start + bar.take(0));
    while i < BAR_WIDTH
        invariant
            i <= 8,
            head == bar_head(tick),
            bar == bar_of(tick),
            r@ == start + bar.take(i as int),
        decreases 8 - i,
    {
        let c = if i == head || i + 1 == head {
            '━'
        } else {
            '·'
        };
        r.push(c);
        assert(bar.take(i + 1) =~= bar.take(i as int).push(bar[i as int]));
        assert(r@ =~= start + bar.take(i + 1));
        i = i + 1;
    }
    assert(bar.take(8) =~= bar);
    r.append("] ");
    r
}

/// The head of the bar moves with every tick, and by one column.
pub proof fn law_bar_moves(tick: u64)
    requires
        tick < u64::MAX,
    ensures
        bar_head((tick + 1) as u64) == bar_head(tick) + 1 || bar_head((tick + 1) as u64)
            == bar_head(tick) - 1,
        0 <= bar_head(tick) < 8,
{
}

/// The text of the state.
pub open spec fn state_text(t: TuiView) -> Seq<char> {
    if t.scroll > 0 {
        "↑ 历史 · 距底部 "@ + text::decimal(t.scroll as nat) + " 行"@
    } else {
        t.status
    }
}

/// What there is to do.
pub open spec fn activity_text(t: TuiView) -> Seq<char> {
    if t.pending_approvals.len() == 0 {
        text::decimal(t.active_turns.len()) + " 活动 · "@ + text::decimal(t.queued_count as nat)
            + " 排队"@
    } else {
        text::decimal(t.pending_approvals.len()) + " 个审批待处理"@
    }
}

/// The sign before the state, and its colour.
pub open spec fn sign_of(t: TuiView, width: u16) -> (Seq<char>, Tone) {
    let phase = tui::overall(t);
    if phase == ActivityPhase::WaitingApproval {
        ("◆ "@, Tone::Warm)
    } else if phase.moves() {
        (indicator_of(t.animation_tick, width >= 55), Tone::Info)
    } else if text::has_text(t.status, "失败"@) || text::has_text(t.status, "中断"@) {
        ("✗ "@, Tone::Error)
    } else {
        ("● "@, Tone::Success)
    }
}

/// The line of the state.
pub open spec fn status_of(t: TuiView, width: u16) -> Seq<SpanView> {
    let sign = sign_of(t, width);
    let activity = activity_text(t);
    let room = most(
        width - (input_editor::width_of(sign.0) + input_editor::width_of(activity) + 3),
        0,
    );
    seq![
        SpanView { text: sign.0, look: view::plain(sign.1) },
        SpanView {
            text: view::shortened(state_text(t), room as usize),
            look: view::plain(Tone::Foreground),
        },
        SpanView { text: "   "@ + activity, look: view::plain(Tone::Muted) },
    ]
}

/// The line of the state.
pub fn status_line(state: &TuiState, width: u16) -> (r: Vec<Span>)
    requires
        state.wf(),
    ensures
        view::line_view(r@) == status_of(state@, width),
{
    let said = if state.scroll > 0 {
        let mut s = two("↑ 历史 · 距底部 ", text::decimal_text(state.scroll as u64).as_str());
        s.append(" 行");
        s
    } else {
        state.status.clone()
    };
    let activity = if state.pending_approvals.len() == 0 {
        let mut s = two(
            text::decimal_text(state.active_turns.len() as u64).as_str(),
            " 活动 · ",
        );
        s.append(text::decimal_text(state.queued_count as u64).as_str());
        s.append(" 排队");
        s
    } else {
        two(
            text::decimal_text(state.pending_approvals.len() as u64).as_str(),
            " 个审批待处理",
        )
    };
    let phase = state.activity_phase();
    let (sign, tone) = if phase == ActivityPhase::WaitingApproval {
        ("◆ ".to_owned(), Tone::Warm)
    } else if phase.is_animated() {
        (indeterminate_indicator(state.animation_tick, width >= 55), Tone::Info)
    } else if text::contains(state.status.as_str(), "失败") || text::contains(
        state.status.as_str(),
        "中断",
    ) {
        ("✗ ".to_owned(), Tone::Error)
    } else {
        ("● ".to_owned(), Tone::Success)
    };
    assert(sign@ == sign_of(state@, width).0);
    assert(activity@ == activity_text(state@));
    assert(said@ == state_text(state@));
    let room: usize = (width as usize).saturating_sub(
        input_editor::display_width(sign.as_str()),
    ).saturating_sub(input_editor::display_width(activity.as_str())).saturating_sub(3);
    let compact = view::truncate_text(said.as_str(), room);
    let mut r: Vec<Span> = Vec::new();
    r.push(piece(sign.as_str(), look(tone, false)));
    r.push(piece(compact.as_str(), look(Tone::Foreground, false)));
    r.push(piece(two("   ", activity.as_str()).as_str(), look(Tone::Muted, false)));
    assert(view::line_view(r@) =~= status_of(state@, width));
    r
}

/// A text with spaces behind it, up to a number of characters.
pub open spec fn padded(s: Seq<char>, n: int) -> Seq<char> {
    s + Seq::new(most(n - s.len(), 0) as nat, |i: int| ' ')
}

fn pad(s: &str, n: usize) -> (r: String)
    ensures
        r@ == padded(s@, n as int),
{
    let chars = text::chars_of(s);
    let mut r = s.to_owned();
    let mut i: usize = chars.len();
    let ghost given = s@;
    assert(r@ =~= given + Seq::new(0, |k: int| ' '));
    while i < n
        invariant
            given.len() <= i,
            given.len() <= n ==> i <= n,
            given.len() > n ==> i == given.len(),
            r@ == given + Seq::new((i - given.len()) as nat, |k: int| ' '),
        decreases n - i,
    {
        r.push(' ');
        i = i + 1;
        assert(r@ =~= given + Seq::new((i - given.len()) as nat, |k: int| ' '));
    }
    assert(r@ =~= padded(given, n as int));
    r
}

/// A command of the list: how it is used, and what it does.
#[derive(Debug)]
pub struct MenuEntry {
    pub usage: String,
    pub help: String,
}

/// What a command of the list says.
pub struct MenuView {
    pub usage: Seq<char>,
    pub help: Seq<char>,
}

impl View for MenuEntry {
    type V = MenuView;

    open spec fn view(&self) -> MenuView {
        MenuView { usage: self.usage@, help: self.help@ }
    }
}

/// What the commands of the list say.
pub open spec fn menu_views(v: Seq<MenuEntry>) -> Seq<MenuView> {
    Seq::new(v.len(), |i: int| v[i]@)
}

/// The columns of the widest command.
pub open spec fn widest(v: Seq<MenuView>) -> int
    decreases v.len(),
{
    if v.len() == 0 {
        0
    } else {
        most(widest(v.drop_last()), input_editor::width_of(v.last().usage) as int)
    }
}

/// The command that is chosen.
pub open spec fn menu_chosen(count: int, selection: int) -> int {
    least(selection, count - 1)
}

/// The first command that is shown: the chosen one is in sight.
pub open spec fn menu_start(count: int, selection: int, rows: int) -> int {
    least(most(menu_chosen(count, selection) + 1 - rows, 0), most(count - rows, 0))
}

/// A line of the list of commands.
pub open spec fn menu_line(m: MenuView, chosen: bool, usage_width: int) -> Seq<SpanView> {
    let own = if chosen {
        view::strong(Tone::Info)
    } else {
        view::plain(Tone::Foreground)
    };
    seq![
        SpanView {
            text: if chosen {
                "› "@
            } else {
                "  "@
            },
            look: own,
        },
        SpanView { text: padded(m.usage, usage_width), look: own },
        SpanView { text: m.help, look: view::plain(Tone::Muted) },
    ]
}

/// The lines of the list of commands.
pub open spec fn menu_of(v: Seq<MenuView>, selection: int, rows: int) -> Seq<Seq<SpanView>> {
    if rows == 0 || v.len() == 0 {
        Seq::empty()
    } else {
        let start = menu_start(v.len() as int, selection, rows);
        let chosen = menu_chosen(v.len() as int, selection);
        let usage_width = least(widest(v), 30) + 2;
        Seq::new(
            least(rows, v.len() - start) as nat,
            |i: int| menu_line(v[start + i], start + i == chosen, usage_width),
        )
    }
}

fn widest_usage(v: &Vec<MenuEntry>) -> (r: usize)
    ensures
        r == widest(menu_views(v@)),
{
    let ghost all = menu_views(v@);
    let mut r: usize = 0;
    let mut i: usize = 0;
    assert(all.take(0) =~= Seq::<MenuView>::empty());
    while i < v.len()
        invariant
            i <= v@.len(),
            all == menu_views(v@),
            r == widest(all.take(i as int)),
        decreases v@.len() - i,
    {
        proof {
            assert(all.take(i + 1).drop_last() =~= all.take(i as int));
            assert(all.take(i + 1).last() == v@[i as int]@);
        }
        let w: usize = input_editor::display_width(v[i].usage.as_str());
        if r < w {
            r = w;
        }
        i = i + 1;
    }
    assert(all.take(i as int) =~= all);
    r
}

fn make_menu_line(m: &MenuEntry, chosen: bool, usage_width: usize) -> (r: Vec<Span>)
    ensures
        view::line_view(r@) == menu_line(m@, chosen, usage_width as int),
{
    let own = if chosen {
        look(Tone::Info, true)
    } else {
        look(Tone::Foreground, false)
    };
    let marker = if chosen {
        "› "
    } else {
        "  "
    };
    let mut r: Vec<Span> = Vec::new();
    r.push(piece(marker, own));
    r.push(piece(pad(m.usage.as_str(), usage_width).as_str(), own));
    r.push(piece(m.help.as_str(), look(Tone::Muted, false)));
    assert(view::line_view(r@) =~= menu_line(m@, chosen, usage_width as int));
    r
}

/// The lines of the list of commands in a part of that height.
pub fn slash_menu_lines(suggestions: &Vec<MenuEntry>, selection: usize, height: u16) -> (r: Vec<
    Vec<Span>,
>)
    ensures
        view::lines_view(r@) == menu_of(
            menu_views(suggestions@),
            selection as int,
            most(height - 2, 0),
        ),
{
    let rows: usize = height.saturating_sub(2) as usize;
    let count: usize = suggestions.len();
    let ghost all = menu_views(suggestions@);
    let mut out: Vec<Vec<Span>> = Vec::new();
    assert(view::lines_view(out@) =~= Seq::<Seq<SpanView>>::empty());
    if rows == 0 || count == 0 {
        return out;
    }
    let chosen: usize = if selection < count - 1 {
        selection
    } else {
        count - 1
    };
    let back: usize = (chosen + 1).saturating_sub(rows);
    let furthest: usize = count.saturating_sub(rows);
    let start: usize = if back < furthest {
        back
    } else {
        furthest
    };
    let widest: usize = widest_usage(suggestions);
    let usage_width: usize = if widest < 30 {
        widest + 2
    } else {
        32
    };
    let end: usize = if rows < count - start {
        start + rows
    } else {
        count
    };
    let ghost wanted = menu_of(all, selection as int, rows as int);
    let mut i: usize = start;
    assert(view::lines_view(out@) =~= wanted.take(0));
    while i < end
        invariant
            start <= i <= end <= suggestions@.len(),
            all == menu_views(suggestions@),
            wanted.len() == end - start,
            forall|k: int|
                0 <= k < wanted.len() ==> #[trigger] wanted[k] == menu_line(
                    all[start + k],
                    start + k == chosen,
                    usage_width as int,
                ),
            view::lines_view(out@) == wanted.take(i - start),
        decreases end - i,
    {
        let line = make_menu_line(&suggestions[i], i == chosen, usage_width);
        let ghost before = view::lines_view(out@);
        let ghost said = view::line_view(line@);
        out.push(line);
        assert(view::lines_view(out@) =~= before.push(said));
        assert(wanted[i - start] == said);
        assert(wanted.take(i - start + 1) =~= wanted.take(i - start).push(wanted[i - start]));
        i = i + 1;
    }
    assert(wanted.take(end - start) =~= wanted);
    out
}

/// The command that is chosen is in sight.
pub proof fn law_chosen_command_is_shown(count: int, selection: int, rows: int)
    requires
        0 < count,
        0 <= selection,
        0 < rows,
    ensures
        menu_start(count, selection, rows) <= menu_chosen(count, selection) < menu_start(
            count,
            selection,
            rows,
        ) + rows,
        0 <= menu_start(count, selection, rows) < count,
{
}

/// The rectangle of the help: in the middle.
pub fn help_area(content: Area, entries: u16) -> (r: Area)
    requires
        content.wf(),
    ensures
        ({
            let width = least(content.width as int, 72);
            let height = least(content.height as int, least(entries + 6, u16::MAX as int));
            &&& r.width == width
            &&& r.height == height
            &&& r.x == content.x + (content.width - width) / 2
            &&& r.y == content.y + (content.height - height) / 2
        }),
{
    let width: u16 = lesser(content.width, 72);
    let height: u16 = lesser(content.height, entries.saturating_add(6));
    Area {
        x: content.x + (content.width - width) / 2,
        y: content.y + (content.height - height) / 2,
        width,
        height,
    }
}

/// A line of the help.
pub open spec fn help_line(entry: (Seq<char>, Seq<char>)) -> Seq<SpanView> {
    view::one(padded(entry.0, 20) + entry.1, view::plain(Tone::Foreground))
}

/// The lines of the help.
pub open spec fn help_of(
    entries: Seq<(Seq<char>, Seq<char>)>,
    session: Seq<char>,
) -> Seq<Seq<SpanView>> {
    seq![view::one("快捷键"@, view::strong(Tone::Info)), Seq::empty()] + Seq::new(
        entries.len(),
        |i: int| help_line(entries[i]),
    ) + seq![
        Seq::empty(),
        view::one("当前 session: "@ + view::shortened(session, 32), view::plain(Tone::Muted)),
    ]
}

/// The lines of the help.
pub fn help_lines(session: &str) -> (r: Vec<Vec<Span>>)
    ensures
        view::lines_view(r@) == help_of(
            keybindings::entries_of(keybindings::action_order()),
            session@,
        ),
{
    let entries = keybindings::help_entries();
    let ghost all = keybindings::entry_views(entries@);
    let ghost middle = Seq::new(all.len(), |i: int| help_line(all[i]));
    let mut out: Vec<Vec<Span>> = Vec::new();
    let mut title: Vec<Span> = Vec::new();
    title.push(piece("快捷键", look(Tone::Info, true)));
    let ghost head = seq![view::one("快捷键"@, view::strong(Tone::Info)), Seq::empty()];
    assert(view::line_view(title@) =~= head[0]);
    out.push(title);
    let empty: Vec<Span> = Vec::new();
    assert(view::line_view(empty@) =~= Seq::<SpanView>::empty());
    out.push(empty);
    assert(view::lines_view(out@) =~= head);
    let mut i: usize = 0;
    assert(view::lines_view(out@) =~= head + middle.take(0));
    while i < entries.len()
        invariant
            i <= entries@.len(),
            all == keybindings::entry_views(entries@),
            middle == Seq::new(all.len(), |i: int| help_line(all[i])),
            view::lines_view(out@) == head + middle.take(i as int),
        decreases entries@.len() - i,
    {
        let mut said = pad(entries[i].0, 20);
        said.append(entries[i].1);
        let line = single(said.as_str(), Tone::Foreground);
        let ghost before = view::lines_view(out@);
        let ghost own = view::line_view(line@);
        out.push(line);
        assert(view::lines_view(out@) =~= before.push(own));
        assert(own == middle[i as int]);
        assert(middle.take(i + 1) =~= middle.take(i as int).push(middle[i as int]));
        assert(view::lines_view(out@) =~= head + middle.take(i + 1));
        i = i + 1;
    }
    assert(middle.take(i as int) =~= middle);
    let ghost before = view::lines_view(out@);
    let empty: Vec<Span> = Vec::new();
    assert(view::line_view(empty@) =~= Seq::<SpanView>::empty());
    out.push(empty);
    let short = view::short_id(session, 32);
    out.push(single(two("当前 session: ", short.as_str()).as_str(), Tone::Muted));
    assert(view::lines_view(out@) =~= help_of(all, session@));
    out
}

/// The lesser and the greater of two numbers are the two numbers.
pub proof fn law_least_and_most(a: int, b: int)
    ensures
        least(a, b) <= a && least(a, b) <= b,
        most(a, b) >= a && most(a, b) >= b,
        least(a, b) + most(a, b) == a + b,
        least(a, b) == a || least(a, b) == b,
{
}

/// A terminal that is too small has no plan; any other has one, in its middle, with room for
/// a line that is typed and for a question where one waits.
pub proof fn law_small_terminals_have_no_plan(
    area: Area,
    input_rows: u16,
    approval_rows: u16,
    commands: u16,
)
    requires
        area.wf(),
    ensures
        plan_of(area, input_rows, approval_rows, commands) is None <==> area.width < 24
            || area.height < 12,
        plan_of(area, input_rows, approval_rows, commands) matches Some(p) ==> p.content.width
            <= 108 && p.content.width <= area.width - 4 && p.content.height == area.height - 2
            && p.content.y == area.y + 1 && 3 <= p.input_height <= 10 && (approval_rows == 0
            <==> p.approval_height == 0) && (commands == 0 ==> p.slash_height == 0),
        plan_of(area, input_rows, approval_rows, commands) matches Some(p) ==> {
            let before = p.content.x - area.x;
            let behind = area.x + area.width - (p.content.x + p.content.width);
            0 <= before <= behind <= before + 1
        },
{
}

/// The name of a workspace is the last part of its path; a path that ends with a slash has
/// none.
pub proof fn law_workspaces_are_named_by_their_last_part(path: Seq<char>, name: Seq<char>)
    requires
        forall|i: int| 0 <= i < name.len() ==> #[trigger] name[i] != '/',
    ensures
        name.len() > 0 ==> workspace_name(path + seq!['/'] + name) == name,
        after_slash(path).is_suffix_of(path),
        !after_slash(path).contains('/'),
        workspace_name(path).len() > 0,
    decreases name.len() + path.len(),
{
    reveal_strlit("workspace");
    lemma_part_behind_slash(path);
    lemma_last_part(path + seq!['/'], name);
}

proof fn lemma_part_behind_slash(path: Seq<char>)
    ensures
        after_slash(path).is_suffix_of(path),
        !after_slash(path).contains('/'),
    decreases path.len(),
{
    if path.len() > 0 && path.last() != '/' {
        let w = path.drop_last();
        lemma_part_behind_slash(w);
        let a = after_slash(path);
        let b = after_slash(w);
        assert(b == w.subrange(w.len() - b.len(), w.len() as int));
        assert(path.subrange(path.len() - a.len(), path.len() as int) =~= a);
        assert forall|i: int| 0 <= i < a.len() implies #[trigger] a[i] != '/' by {
            if i < b.len() {
                assert(b.contains(b[i]));
            }
        }
    } else {
        assert(path.subrange(path.len() as int, path.len() as int) =~= Seq::<char>::empty());
    }
}

proof fn lemma_last_part(head: Seq<char>, name: Seq<char>)
    requires
        head.len() > 0,
        head.last() == '/',
        forall|i: int| 0 <= i < name.len() ==> #[trigger] name[i] != '/',
    ensures
        after_slash(head + name) == name,
    decreases name.len(),
{
    if name.len() == 0 {
        assert(head + name =~= head);
        assert(after_slash(head) =~= name);
    } else {
        lemma_last_part(head, name.drop_last());
        assert((head + name).drop_last() =~= head + name.drop_last());
        assert(name[name.len() - 1] != '/');
        assert(name.drop_last().push(name.last()) =~= name);
    }
}

/// The header tells the workspace, the session and where the pages are.
pub proof fn law_the_header(t: TuiView)
    ensures
        header_of(t).len() == 2,
        header_of(t)[0].len() == 4,
        header_of(t)[0][2].text == workspace_name(t.workspace),
        view::shortened(t.session_id, 18).is_suffix_of(header_of(t)[0][3].text),
        text::has_text(header_of(t)[1][0].text, t.web_url),
{
    let s = header_of(t)[0][3].text;
    let d = view::shortened(t.session_id, 18);
    assert(s.subrange(s.len() - d.len(), s.len() as int) =~= d);
    let w = header_of(t)[1][0].text;
    let at = "Web "@.len() as int;
    assert(w.subrange(at, at + t.web_url.len()) =~= t.web_url);
    assert(text::occurs_at(w, t.web_url, at));
}

/// The transcript begins where it is kept, else at its end while that is followed, and else as
/// many rows before the end as were scrolled; what is shown never goes beyond the end.
pub proof fn law_where_the_transcript_begins(
    t: TuiView,
    lines: int,
    viewport: int,
    anchor: Option<usize>,
)
    requires
        0 <= viewport,
        0 <= lines,
    ensures
        0 <= start_of(t, lines, viewport, anchor),
        start_of(t, lines, viewport, anchor) == 0 || start_of(t, lines, viewport, anchor) + viewport
            <= lines,
        anchor is Some && anchor->0 + viewport <= lines ==> start_of(t, lines, viewport, anchor)
            == anchor->0,
        anchor is None && t.preserve_transcript_start is None && t.follow_bottom && viewport <= lines
            ==> start_of(t, lines, viewport, anchor) + viewport == lines,
        anchor is None && t.preserve_transcript_start is None && !t.follow_bottom && viewport
            + t.scroll <= lines ==> start_of(t, lines, viewport, anchor) + viewport + t.scroll
            == lines,
        lines <= viewport ==> start_of(t, lines, viewport, anchor) == 0,
{
}

/// A question is never scrolled beyond its end, and not at all where it is whole in sight.
pub proof fn law_questions_stay_in_sight(t: TuiView, lines: int, visible: int)
    requires
        0 <= lines <= usize::MAX,
        0 <= visible,
    ensures
        question_placed(t, lines, visible).approval_scroll <= t.approval_scroll,
        lines <= visible ==> question_placed(t, lines, visible).approval_scroll == 0,
        lines > visible ==> question_placed(t, lines, visible).approval_scroll + visible <= lines,
        t.approval_scroll + visible <= lines ==> question_placed(t, lines, visible)
            == t,
{
}

/// The place of the line is shown within the part it is typed in, and not while a question
/// waits.
pub proof fn law_the_place_is_shown_inside(t: TuiView, inner: Area, skip: int)
    requires
        inner.wf(),
        inner.width > 0,
    ensures
        t.pending_approvals.len() > 0 ==> cursor_of(t, inner, skip) is None,
        inner.height == 0 ==> cursor_of(t, inner, skip) is None,
        cursor_of(t, inner, skip) matches Some((x, y)) ==> inner.x <= x < inner.x + inner.width
            && inner.y <= y < inner.y + inner.height,
        t.pending_approvals.len() == 0 && inner.height > 0 ==> cursor_of(t, inner, skip) is Some,
{
}

/// What there is to read below is counted; the sign for it stands in its part.
pub proof fn law_unread_messages_are_told(unread: usize, region: Area, columns: u16)
    requires
        region.wf(),
        region.height > 0,
    ensures
        unread > 0 ==> text::has_text(pill_text(unread), text::decimal(unread as nat)),
        region.x <= pill_area(region, columns).x,
        pill_area(region, columns).x + pill_area(region, columns).width <= region.x + region.width,
        pill_area(region, columns).y + 1 == region.y + region.height,
        pill_area(region, columns).height == 1,
{
    if unread > 0 {
        let d = text::decimal(unread as nat);
        let p = pill_text(unread);
        let at = "↥ "@.len() as int;
        assert(p.subrange(at, at + d.len()) =~= d);
        assert(text::occurs_at(p, d, at));
    }
}

/// The state tells how far from the end the reader is, and at the end the status. What there
/// is to do tells the questions first.
pub proof fn law_the_state_is_told(t: TuiView)
    ensures
        t.scroll == 0 ==> state_text(t) == t.status,
        t.scroll > 0 ==> text::has_text(state_text(t), text::decimal(t.scroll as nat)),
        t.pending_approvals.len() > 0 ==> text::decimal(t.pending_approvals.len()).is_prefix_of(
            activity_text(t),
        ),
        t.pending_approvals.len() == 0 ==> text::decimal(t.active_turns.len()).is_prefix_of(
            activity_text(t),
        ),
{
    if t.scroll > 0 {
        let d = text::decimal(t.scroll as nat);
        let s = state_text(t);
        let at = "↑ 历史 · 距底部 "@.len() as int;
        assert(s.subrange(at, at + d.len()) =~= d);
        assert(text::occurs_at(s, d, at));
    }
    let a = activity_text(t);
    if t.pending_approvals.len() > 0 {
        let d = text::decimal(t.pending_approvals.len());
        assert(a.subrange(0, d.len() as int) =~= d);
    } else {
        let d = text::decimal(t.active_turns.len());
        assert(a.subrange(0, d.len() as int) =~= d);
    }
}

/// The sign tells a question, then work that goes on, then a failure; only without any of
/// them that all is well.
pub proof fn law_the_sign_tells_the_state(t: TuiView, width: u16)
    ensures
        t.pending_approvals.len() > 0 <==> sign_of(t, width).1 == Tone::Warm,
        sign_of(t, width).1 == Tone::Success ==> !text::has_text(t.status, "失败"@) && !text::has_text(
            t.status,
            "中断"@,
        ) && !tui::overall(t).moves(),
        sign_of(t, width).1 == Tone::Error ==> text::has_text(t.status, "失败"@) || text::has_text(
            t.status,
            "中断"@,
        ),
{
}

/// A menu shows its entries in order, from where it begins, each with its use and its help;
/// the chosen one alone is marked.
pub proof fn law_menus_show_their_entries(v: Seq<MenuView>, selection: int, rows: int, i: int)
    requires
        0 < v.len(),
        0 < rows,
        0 <= selection,
        0 <= i < menu_of(v, selection, rows).len(),
    ensures
        ({
            let start = menu_start(v.len() as int, selection, rows);
            let line = menu_of(v, selection, rows)[i];
            &&& menu_of(v, selection, rows).len() <= rows
            &&& start + i < v.len()
            &&& line.len() == 3
            &&& line[2].text == v[start + i].help
            &&& v[start + i].usage.is_prefix_of(line[1].text)
            &&& line[0].look.bold <==> start + i == menu_chosen(v.len() as int, selection)
        }),
{
    let start = menu_start(v.len() as int, selection, rows);
    let line = menu_of(v, selection, rows)[i];
    let u = v[start + i].usage;
    assert(line[1].text.subrange(0, u.len() as int) =~= u);
}

/// A text that is filled up keeps its start, gets spaces behind it and is as long as asked
/// for, or longer where it was.
pub proof fn law_filling_up(s: Seq<char>, n: int)
    ensures
        s.is_prefix_of(padded(s, n)),
        s.len() <= n ==> padded(s, n).len() == n,
        s.len() > n ==> padded(s, n) == s,
        forall|i: int| s.len() <= i < padded(s, n).len() ==> #[trigger] padded(s, n)[i] == ' ',
{
    assert(padded(s, n).subrange(0, s.len() as int) =~= s);
    if s.len() > n {
        assert(padded(s, n) =~= s);
    }
}

/// The widest entry is as wide as any and as wide as one.
pub proof fn law_the_widest_entry(v: Seq<MenuView>)
    ensures
        forall|i: int|
            0 <= i < v.len() ==> input_editor::width_of((#[trigger] v[i]).usage) <= widest(v),
        widest(v) == 0 || exists|i: int|
            0 <= i < v.len() && input_editor::width_of((#[trigger] v[i]).usage) == widest(v),
        widest(v) >= 0,
    decreases v.len(),
{
    if v.len() > 0 {
        let w = v.drop_last();
        law_the_widest_entry(w);
        assert(v[v.len() - 1] == v.last());
        assert forall|i: int| 0 <= i < v.len() implies input_editor::width_of(
            (#[trigger] v[i]).usage,
        ) <= widest(v) by {
            if i < w.len() {
                assert(w[i] == v[i]);
            }
        }
        if widest(v) != input_editor::width_of(v.last().usage) && widest(v) != 0 {
            let i = choose|i: int|
                0 <= i < w.len() && input_editor::width_of((#[trigger] w[i]).usage) == widest(w);
            assert(v[i] == w[i]);
        }
    }
}

/// The help has a line for each entry, in order, with what the keys are and what they do.
pub proof fn law_the_help(entries: Seq<(Seq<char>, Seq<char>)>, session: Seq<char>, i: int)
    requires
        0 <= i < entries.len(),
    ensures
        help_of(entries, session).len() == entries.len() + 4,
        help_of(entries, session)[i + 2] == help_line(entries[i]),
        entries[i].0.is_prefix_of(help_line(entries[i])[0].text),
        entries[i].1.is_suffix_of(help_line(entries[i])[0].text),
{
    let l = help_line(entries[i])[0].text;
    assert(l.subrange(0, entries[i].0.len() as int) =~= entries[i].0);
    assert(l.subrange(l.len() - entries[i].1.len(), l.len() as int) =~= entries[i].1);
}

/// The rows of parts add up, one part after the other.
pub proof fn law_rows_add_up(h: Seq<u16>, n: int)
    requires
        0 <= n < h.len(),
    ensures
        rows_of(h, 0) == 0,
        rows_of(h, n + 1) == rows_of(h, n) + h[n],
{
}

} // verus!
