//! The line that is being typed, edited by what a reader sees as one character.
use vstd::prelude::*;

use crate::text;

verus! {

/// The parts of a text that a reader sees as one character each: extended grapheme clusters.
pub uninterp spec fn graphemes_of(s: Seq<char>) -> Seq<Seq<char>>;

/// The columns that a text takes on a terminal.
pub uninterp spec fn width_of(s: Seq<char>) -> usize;

/// `UnicodeSegmentation::graphemes(_, true)`, collected. The clusters depend on the text
/// alone; none is empty, and put together they are the text. A line feed is a cluster of its
/// own, or one with the carriage return before it.
#[verifier::external_body]
pub(crate) fn graphemes(s: &str) -> (r: Vec<String>)
    ensures
        text::views(r@) == graphemes_of(s@),
        text::join(text::views(r@), Seq::empty()) == s@,
        forall|i: int| 0 <= i < r@.len() ==> (#[trigger] r@[i])@.len() > 0,
        forall|i: int|
            0 <= i < r@.len() && (#[trigger] r@[i])@.contains('\n') ==> r@[i]@ == seq!['\n']
                || r@[i]@ == seq!['\r', '\n'],
{
    unicode_segmentation::UnicodeSegmentation::graphemes(s, true).map(String::from).collect()
}

/// `UnicodeWidthStr::width`. The columns depend on the text alone.
#[verifier::external_body]
pub(crate) fn display_width(s: &str) -> (r: usize)
    ensures
        r == width_of(s@),
{
    unicode_width::UnicodeWidthStr::width(s)
}

/// A line and the place at which it is edited, counted in characters.
#[derive(Debug)]
pub struct InputEditor {
    buffer: Vec<char>,
    cursor: usize,
}

/// What a line says, and where it is edited.
#[verifier::ext_equal]
pub struct EditorView {
    pub text: Seq<char>,
    pub cursor: int,
}

impl View for InputEditor {
    type V = EditorView;

    closed spec fn view(&self) -> EditorView {
        EditorView { text: self.buffer@, cursor: self.cursor as int }
    }
}

/// Where the clusters before the one with the number `n` end.
pub open spec fn boundary(clusters: Seq<Seq<char>>, n: int) -> int
    decreases n,
{
    if n <= 0 {
        0
    } else {
        boundary(clusters, n - 1) + clusters[n - 1].len()
    }
}

/// The place is between two clusters of the text, or at one of its ends.
pub open spec fn on_boundary(s: Seq<char>, place: int) -> bool {
    exists|n: int|
        0 <= n <= graphemes_of(s).len() && #[trigger] boundary(graphemes_of(s), n) == place
}

/// The line is edited between two of its clusters, or at one of its ends.
pub open spec fn settled(e: EditorView) -> bool {
    on_boundary(e.text, e.cursor) || e.cursor == e.text.len()
}

/// How many clusters, of those after the first `n` too, it takes to reach a place.
pub open spec fn reaching(clusters: Seq<Seq<char>>, place: int, n: int) -> int
    decreases clusters.len() - n,
{
    if n < 0 || n >= clusters.len() || boundary(clusters, n) >= place {
        n
    } else {
        reaching(clusters, place, n + 1)
    }
}

/// The first end of a cluster at or after a place.
pub open spec fn snapped(clusters: Seq<Seq<char>>, place: int) -> int {
    boundary(clusters, reaching(clusters, place, 0))
}

/// The place where a text is edited that was to be edited at a place: on to the end of the
/// cluster that the place lies in.
pub open spec fn settle(s: Seq<char>, place: int) -> int {
    if place == s.len() {
        place
    } else {
        snapped(graphemes_of(s), place)
    }
}

/// The number of the cluster that ends at a place, or in which it lies.
pub open spec fn cluster_before(e: EditorView) -> int {
    reaching(graphemes_of(e.text), e.cursor, 0) - 1
}

/// The number of the cluster that begins at a place, or in which it lies.
pub open spec fn cluster_after(e: EditorView) -> int {
    reaching(graphemes_of(e.text), e.cursor + 1, 0) - 1
}

/// The start of the cluster before a place.
pub open spec fn previous_start(e: EditorView) -> Option<int> {
    if e.cursor <= 0 {
        None
    } else {
        Some(boundary(graphemes_of(e.text), cluster_before(e)))
    }
}

/// The end of the cluster after a place.
pub open spec fn next_end(e: EditorView) -> Option<int> {
    if e.cursor >= e.text.len() {
        None
    } else {
        Some(snapped(graphemes_of(e.text), e.cursor + 1))
    }
}

/// The cluster before a place is white space.
pub open spec fn space_before(e: EditorView) -> bool {
    e.cursor > 0 && text::blank(graphemes_of(e.text)[cluster_before(e)])
}

/// The cluster after a place is white space.
pub open spec fn space_after(e: EditorView) -> bool {
    e.cursor < e.text.len() && text::blank(graphemes_of(e.text)[cluster_after(e)])
}

/// The same line, edited at another place.
pub open spec fn at(e: EditorView, cursor: int) -> EditorView {
    EditorView { cursor, ..e }
}

/// One cluster to the left.
pub open spec fn left(e: EditorView) -> EditorView {
    match previous_start(e) {
        Some(start) => at(e, start),
        None => e,
    }
}

/// One cluster to the right.
pub open spec fn right(e: EditorView) -> EditorView {
    match next_end(e) {
        Some(end) => at(e, end),
        None => e,
    }
}

/// To the left as long as the clusters there are white space, or are not.
pub open spec fn left_over(e: EditorView, space: bool) -> EditorView
    decreases e.cursor,
{
    if e.cursor > 0 && space_before(e) == space && 0 <= left(e).cursor < e.cursor {
        left_over(left(e), space)
    } else {
        e
    }
}

/// To the right as long as the clusters there are white space, or are not.
pub open spec fn right_over(e: EditorView, space: bool) -> EditorView
    decreases e.text.len() - e.cursor,
{
    if e.cursor < e.text.len() && space_after(e) == space && e.cursor < right(e).cursor
        <= e.text.len() {
        right_over(right(e), space)
    } else {
        e
    }
}

/// One word to the left.
pub open spec fn word_left(e: EditorView) -> EditorView {
    left_over(left_over(e, true), false)
}

/// One word to the right.
pub open spec fn word_right(e: EditorView) -> EditorView {
    right_over(right_over(e, true), false)
}

/// The line with a text put in: the place moves behind it, and on to the end of the cluster
/// that it came to lie in.
pub open spec fn inserted(e: EditorView, s: Seq<char>) -> EditorView {
    let text = e.text.take(e.cursor) + s + e.text.skip(e.cursor);
    EditorView { text, cursor: settle(text, e.cursor + s.len()) }
}

/// The line without what lies between two places: it is edited where that was, or at the end
/// of the cluster that this came to lie in.
pub open spec fn without(e: EditorView, from: int, to: int) -> EditorView {
    let text = e.text.take(from) + e.text.skip(to);
    EditorView { text, cursor: settle(text, from) }
}

/// The line without the cluster to the left.
pub open spec fn erased_left(e: EditorView) -> EditorView {
    match previous_start(e) {
        Some(start) => without(e, start, e.cursor),
        None => e,
    }
}

/// The line without the cluster to the right.
pub open spec fn erased_right(e: EditorView) -> EditorView {
    match next_end(e) {
        Some(end) => without(e, e.cursor, end),
        None => e,
    }
}

/// The line without the word to the left.
pub open spec fn erased_word(e: EditorView) -> EditorView {
    without(e, word_left(e).cursor, e.cursor)
}

/// Where the line of the place begins.
pub open spec fn line_start(s: Seq<char>, place: int) -> int
    decreases place,
{
    if place <= 0 || s[place - 1] == '\n' {
        place
    } else {
        line_start(s, place - 1)
    }
}

/// Where the line of the place ends.
pub open spec fn line_stop(s: Seq<char>, place: int) -> int
    decreases s.len() - place,
{
    if place < 0 || place >= s.len() || s[place] == '\n' {
        place
    } else {
        line_stop(s, place + 1)
    }
}

/// Edited where the line of the place begins.
pub open spec fn to_line_start(e: EditorView) -> EditorView {
    at(e, settle(e.text, line_start(e.text, e.cursor)))
}

/// Edited where the line of the place ends.
pub open spec fn to_line_end(e: EditorView) -> EditorView {
    at(e, settle(e.text, line_stop(e.text, e.cursor)))
}

/// The number of line feeds in a text.
pub open spec fn line_feeds(s: Seq<char>) -> nat
    decreases s.len(),
{
    if s.len() == 0 {
        0
    } else if s.last() == '\n' {
        line_feeds(s.drop_last()) + 1
    } else {
        line_feeds(s.drop_last())
    }
}

/// A text without carriage returns.
pub open spec fn without_returns(s: Seq<char>) -> Seq<char>
    decreases s.len(),
{
    if s.len() == 0 {
        s
    } else if s.last() == '\r' {
        without_returns(s.drop_last())
    } else {
        without_returns(s.drop_last()).push(s.last())
    }
}

/// A row after another, as far as rows are counted.
pub open spec fn next_row(row: usize) -> usize {
    if row == usize::MAX {
        row
    } else {
        (row + 1) as usize
    }
}

/// Where a cluster leads from a row and a column: a line feed to the next row, a cluster
/// that does not fit there too, and so does one that fills the row.
pub open spec fn visual_step(row: usize, column: int, cluster: Seq<char>, columns: int, width: int) -> (
    usize,
    int,
) {
    if cluster == "\n"@ {
        (next_row(row), 0)
    } else {
        let wraps = columns > 0 && column + columns > width;
        let r = if wraps {
            next_row(row)
        } else {
            row
        };
        let c = if wraps {
            columns
        } else {
            column + columns
        };
        if c >= width {
            (next_row(r), 0)
        } else {
            (r, c)
        }
    }
}

/// The row and the column behind clusters.
pub open spec fn visual_place(clusters: Seq<Seq<char>>, width: int) -> (usize, int)
    decreases clusters.len(),
{
    if clusters.len() == 0 {
        (0, 0)
    } else {
        let (row, column) = visual_place(clusters.drop_last(), width);
        visual_step(row, column, clusters.last(), width_of(clusters.last()) as int, width)
    }
}

proof fn lemma_join_len(clusters: Seq<Seq<char>>, n: int)
    requires
        0 <= n <= clusters.len(),
    ensures
        boundary(clusters, n) == text::join(clusters.take(n), Seq::empty()).len(),
    decreases n,
{
    let part = clusters.take(n);
    if n > 0 {
        lemma_join_len(clusters, n - 1);
        assert(part.drop_last() =~= clusters.take(n - 1));
        assert(part.last() == clusters[n - 1]);
        if n == 1 {
            assert(clusters.take(0) =~= Seq::<Seq<char>>::empty());
        }
    }
}

proof fn lemma_boundary_grows(clusters: Seq<Seq<char>>, a: int, b: int)
    requires
        0 <= a <= b <= clusters.len(),
    ensures
        0 <= boundary(clusters, a) <= boundary(clusters, b),
    decreases b,
{
    if a < b {
        lemma_boundary_grows(clusters, a, b - 1);
    } else if a > 0 {
        lemma_boundary_grows(clusters, a - 1, a - 1);
    }
}

/// The clusters of a text end where it ends.
proof fn lemma_ends(s: Seq<char>)
    requires
        text::join(graphemes_of(s), Seq::empty()) == s,
    ensures
        boundary(graphemes_of(s), graphemes_of(s).len() as int) == s.len(),
{
    let g = graphemes_of(s);
    let n = g.len() as int;
    lemma_join_len(g, n);
    assert(g.take(n) =~= g);
}

proof fn lemma_reaching(clusters: Seq<Seq<char>>, place: int, n: int)
    requires
        0 <= n <= clusters.len(),
    ensures
        n <= reaching(clusters, place, n) <= clusters.len(),
        place <= boundary(clusters, clusters.len() as int) ==> place <= boundary(
            clusters,
            reaching(clusters, place, n),
        ),
        reaching(clusters, place, n) > n ==> boundary(
            clusters,
            reaching(clusters, place, n) - 1,
        ) < place,
    decreases clusters.len() - n,
{
    if n < clusters.len() && boundary(clusters, n) < place {
        lemma_reaching(clusters, place, n + 1);
    }
}

proof fn lemma_settled(s: Seq<char>, place: int)
    ensures
        settled(EditorView { text: s, cursor: settle(s, place) }),
{
    let g = graphemes_of(s);
    if place != s.len() {
        lemma_reaching(g, place, 0);
        assert(boundary(g, reaching(g, place, 0)) == settle(s, place));
    }
}

/// Between two clusters the cluster before ends at the place, and the one after begins there.
proof fn lemma_at_boundary(clusters: Seq<Seq<char>>, n: int)
    requires
        0 <= n <= clusters.len(),
        forall|i: int| 0 <= i < clusters.len() ==> (#[trigger] clusters[i]).len() > 0,
    ensures
        reaching(clusters, boundary(clusters, n), 0) == n,
        n < clusters.len() ==> reaching(clusters, boundary(clusters, n) + 1, 0) == n + 1,
{
    let place = boundary(clusters, n);
    let k = reaching(clusters, place, 0);
    lemma_boundary_grows(clusters, n, clusters.len() as int);
    lemma_reaching(clusters, place, 0);
    if k > n {
        lemma_boundary_grows(clusters, n, k - 1);
    } else if k < n {
        lemma_boundary_grows(clusters, k, n - 1);
        assert(boundary(clusters, n) == boundary(clusters, n - 1) + clusters[n - 1].len());
    }
    if n < clusters.len() {
        let m = reaching(clusters, place + 1, 0);
        assert(boundary(clusters, n + 1) == place + clusters[n].len());
        lemma_boundary_grows(clusters, n + 1, clusters.len() as int);
        lemma_reaching(clusters, place + 1, 0);
        if m > n + 1 {
            lemma_boundary_grows(clusters, n + 1, m - 1);
        } else if m < n + 1 {
            lemma_boundary_grows(clusters, m, n);
        }
    }
}

proof fn lemma_join_prefix(clusters: Seq<Seq<char>>, s: Seq<char>, n: int)
    requires
        0 <= n <= clusters.len(),
        text::join(clusters, Seq::empty()) == s,
    ensures
        0 <= boundary(clusters, n) <= s.len(),
        text::join(clusters.take(n), Seq::empty()) == s.take(boundary(clusters, n)),
    decreases clusters.len() - n,
{
    lemma_boundary_grows(clusters, 0, n);
    if n == clusters.len() {
        lemma_join_len(clusters, n);
        assert(clusters.take(n) =~= clusters);
        assert(s.take(s.len() as int) =~= s);
    } else {
        lemma_join_prefix(clusters, s, n + 1);
        lemma_join_len(clusters, n);
        let more = clusters.take(n + 1);
        let less = text::join(clusters.take(n), Seq::empty());
        assert(more.drop_last() =~= clusters.take(n));
        assert(more.last() == clusters[n]);
        if n == 0 {
            assert(clusters.take(0) =~= Seq::<Seq<char>>::empty());
        }
        assert(text::join(more, Seq::empty()) =~= less + clusters[n]);
        assert(less =~= s.take(boundary(clusters, n)));
    }
}

proof fn lemma_line_feeds_add(a: Seq<char>, b: Seq<char>)
    ensures
        line_feeds(a + b) == line_feeds(a) + line_feeds(b),
    decreases b.len(),
{
    if b.len() == 0 {
        assert(a + b =~= a);
    } else {
        lemma_line_feeds_add(a, b.drop_last());
        assert((a + b).drop_last() =~= a + b.drop_last());
        assert((a + b).last() == b.last());
    }
}

proof fn lemma_feeds_fit(s: Seq<char>)
    ensures
        line_feeds(s) <= s.len(),
    decreases s.len(),
{
    if s.len() > 0 {
        lemma_feeds_fit(s.drop_last());
    }
}

proof fn lemma_no_line_feeds(s: Seq<char>)
    requires
        !s.contains('\n'),
    ensures
        line_feeds(s) == 0,
    decreases s.len(),
{
    if s.len() > 0 {
        assert(s.last() == s[s.len() - 1]);
        assert forall|i: int| 0 <= i < s.drop_last().len() implies s.drop_last()[i] != '\n' by {
            assert(s.drop_last()[i] == s[i]);
        }
        lemma_no_line_feeds(s.drop_last());
    }
}

/// A cluster of a text without carriage returns brings the next row with each line feed.
proof fn lemma_feeds_of_next(clusters: Seq<Seq<char>>, s: Seq<char>, n: int)
    requires
        0 <= n < clusters.len(),
        text::join(clusters, Seq::empty()) == s,
        !s.contains('\r'),
        clusters[n].contains('\n') ==> clusters[n] == seq!['\n'] || clusters[n] == seq!['\r', '\n'],
    ensures
        line_feeds(s.take(boundary(clusters, n + 1))) == line_feeds(s.take(boundary(clusters, n)))
            + (if clusters[n] == seq!['\n'] {
            1nat
        } else {
            0nat
        }),
{
    lemma_join_prefix(clusters, s, n);
    lemma_join_prefix(clusters, s, n + 1);
    let c = clusters[n];
    let more = clusters.take(n + 1);
    assert(more.drop_last() =~= clusters.take(n));
    assert(more.last() == c);
    if n == 0 {
        assert(clusters.take(0) =~= Seq::<Seq<char>>::empty());
    }
    let a = s.take(boundary(clusters, n));
    assert(s.take(boundary(clusters, n + 1)) =~= a + c);
    lemma_line_feeds_add(a, c);
    if c.contains('\n') {
        if c == seq!['\r', '\n'] {
            assert((a + c)[a.len() as int] == '\r');
            assert(s[a.len() as int] == '\r');
            assert(false);
        }
        assert(c.drop_last() =~= Seq::<char>::empty());
        assert(line_feeds(c) == 1) by {
            reveal_with_fuel(line_feeds, 2);
        }
    } else {
        if c == seq!['\n'] {
            assert(c[0] == '\n');
        }
        lemma_no_line_feeds(c);
    }
}

/// A cluster of a line, and where it begins and ends.
struct Located {
    cluster: String,
    start: usize,
    end: usize,
}

impl InputEditor {
    /// The place lies in the line, between two clusters or at an end.
    #[verifier::type_invariant]
    pub closed spec fn inv(self) -> bool {
        self.cursor <= self.buffer@.len() && settled(self@)
    }

    /// The empty line.
    pub fn new() -> (r: Self)
        ensures
            r@ == (EditorView { text: Seq::empty(), cursor: 0 }),
            settled(r@),
    {
        InputEditor { buffer: Vec::new(), cursor: 0 }
    }

    /// The line is empty.
    pub fn is_empty(&self) -> (r: bool)
        ensures
            r == (self@.text.len() == 0),
    {
        self.buffer.len() == 0
    }

    /// The line holds nothing but white space.
    pub fn is_blank(&self) -> (r: bool)
        ensures
            r == text::blank(self@.text),
    {
        text::is_blank(self.text().as_str())
    }

    /// The line has no line feed.
    pub fn is_single_line(&self) -> (r: bool)
        ensures
            r == !self@.text.contains('\n'),
    {
        let mut i: usize = 0;
        while i < self.buffer.len()
            invariant
                i <= self.buffer@.len(),
                forall|k: int| 0 <= k < i ==> #[trigger] self.buffer@[k] != '\n',
            decreases self.buffer@.len() - i,
        {
            if self.buffer[i] == '\n' {
                return false;
            }
            i = i + 1;
        }
        true
    }

    /// The text of the line.
    pub fn text(&self) -> (r: String)
        ensures
            r@ == self@.text,
    {
        text::string_of(&self.buffer)
    }

    /// Empties the line.
    pub fn clear(&mut self)
        ensures
            final(self)@ == (EditorView { text: Seq::empty(), cursor: 0 }),
            settled(final(self)@),
    {
        *self = InputEditor::new();
    }

    /// Puts a text in the place of the line; it is edited at its end.
    pub fn replace(&mut self, s: &str)
        ensures
            final(self)@ == (EditorView { text: s@, cursor: s@.len() as int }),
            settled(final(self)@),
    {
        let buffer = text::chars_of(s);
        let cursor: usize = buffer.len();
        *self = InputEditor { buffer, cursor };
    }

    /// Takes the text and leaves an empty line.
    pub fn take(&mut self) -> (r: String)
        ensures
            r@ == old(self)@.text,
            final(self)@ == (EditorView { text: Seq::empty(), cursor: 0 }),
            settled(final(self)@),
    {
        let r = self.text();
        self.clear();
        r
    }

    fn part(&self, from: usize, to: usize) -> (r: String)
        requires
            from <= to <= self@.text.len(),
        ensures
            r@ == self@.text.subrange(from as int, to as int),
    {
        text::string_of_range(&self.buffer, from, to)
    }

    fn set_cursor(&mut self, cursor: usize)
        requires
            cursor <= old(self)@.text.len(),
            settled(at(old(self)@, cursor as int)),
        ensures
            final(self)@ == at(old(self)@, cursor as int),
    {
        self.cursor = cursor;
    }

    fn set(&mut self, buffer: Vec<char>, cursor: usize)
        requires
            cursor <= buffer@.len(),
            settled(EditorView { text: buffer@, cursor: cursor as int }),
        ensures
            final(self)@ == (EditorView { text: buffer@, cursor: cursor as int }),
    {
        *self = InputEditor { buffer, cursor };
    }

    /// Finds the cluster that reaches a place after the beginning.
    fn locate(&self, place: usize) -> (r: Located)
        requires
            0 < place <= self@.text.len(),
        ensures
            ({
                let g = graphemes_of(self@.text);
                let n = reaching(g, place as int, 0);
                &&& 0 < n <= g.len()
                &&& r.cluster@ == g[n - 1]
                &&& r.start == boundary(g, n - 1)
                &&& r.end == boundary(g, n)
                &&& r.start < place <= r.end <= self@.text.len()
                &&& boundary(g, g.len() as int) == self@.text.len()
                &&& forall|i: int| 0 <= i < g.len() ==> (#[trigger] g[i]).len() > 0
            }),
    {
        let clusters = graphemes(self.text().as_str());
        let ghost g = text::views(clusters@);
        let total: usize = self.buffer.len();
        proof {
            lemma_ends(self@.text);
            lemma_reaching(g, place as int, 0);
            assert forall|i: int| 0 <= i < g.len() implies (#[trigger] g[i]).len() > 0 by {
                assert(g[i] == clusters@[i]@);
            }
        }
        let mut n: usize = 0;
        let mut start: usize = 0;
        let mut end: usize = 0;
        while n < clusters.len() && end < place
            invariant
                n <= clusters@.len(),
                0 < place <= total,
                g == text::views(clusters@),
                boundary(g, g.len() as int) == total,
                n > 0 ==> start == boundary(g, n - 1) && start < place,
                end == boundary(g, n as int),
                reaching(g, place as int, n as int) == reaching(g, place as int, 0),
            decreases clusters@.len() - n,
        {
            let len: usize = text::chars_of(clusters[n].as_str()).len();
            proof {
                assert(g[n as int] == clusters@[n as int]@);
                assert(boundary(g, n + 1) == boundary(g, n as int) + g[n as int].len());
                lemma_boundary_grows(g, n + 1, g.len() as int);
            }
            start = end;
            end = end + len;
            n = n + 1;
        }
        proof {
            assert(n > 0);
            assert(g[n - 1] == clusters@[n - 1]@);
            lemma_boundary_grows(g, n as int, g.len() as int);
            assert(reaching(g, place as int, n as int) == n);
        }
        Located { cluster: clusters[n - 1].clone(), start, end }
    }

    fn previous_grapheme_start(&self) -> (r: Option<usize>)
        ensures
            match r {
                Some(start) => previous_start(self@) == Some(start as int) && start < self@.cursor
                    && self@.cursor <= self@.text.len() && settled(at(self@, start as int)),
                None => previous_start(self@) is None && self@.cursor == 0,
            },
    {
        proof {
            use_type_invariant(self);
        }
        if self.cursor == 0 {
            return None;
        }
        let found = self.locate(self.cursor);
        assert(boundary(graphemes_of(self@.text), cluster_before(self@)) == found.start);
        Some(found.start)
    }

    fn next_grapheme_end(&self) -> (r: Option<usize>)
        ensures
            match r {
                Some(end) => next_end(self@) == Some(end as int) && 0 <= self@.cursor < end
                    <= self@.text.len() && settled(at(self@, end as int)),
                None => next_end(self@) is None && self@.cursor == self@.text.len(),
            },
    {
        proof {
            use_type_invariant(self);
        }
        if self.cursor == self.buffer.len() {
            return None;
        }
        let found = self.locate(self.cursor + 1);
        assert(boundary(graphemes_of(self@.text), cluster_after(self@) + 1) == found.end);
        Some(found.end)
    }

    fn previous_grapheme_is_whitespace(&self) -> (r: bool)
        ensures
            r == space_before(self@),
    {
        proof {
            use_type_invariant(self);
        }
        self.cursor > 0 && text::is_blank(self.locate(self.cursor).cluster.as_str())
    }

    fn next_grapheme_is_whitespace(&self) -> (r: bool)
        ensures
            r == space_after(self@),
    {
        proof {
            use_type_invariant(self);
        }
        self.cursor < self.buffer.len() && text::is_blank(
            self.locate(self.cursor + 1).cluster.as_str(),
        )
    }

    /// Moves on from a place to the end of the cluster that it lies in.
    fn settle_at(buffer: Vec<char>, place: usize) -> (r: Self)
        requires
            place <= buffer@.len(),
        ensures
            r@ == (EditorView { text: buffer@, cursor: settle(buffer@, place as int) }),
    {
        let ghost s = buffer@;
        let total: usize = buffer.len();
        if place == total {
            return InputEditor { buffer, cursor: place };
        }
        if place == 0 {
            assert(boundary(graphemes_of(s), 0) == 0);
            return InputEditor { buffer, cursor: 0 };
        }
        let whole = InputEditor { buffer, cursor: total };
        let end: usize = whole.locate(place).end;
        proof {
            lemma_settled(s, place as int);
        }
        InputEditor { buffer: whole.buffer, cursor: end }
    }

    /// Moves one cluster to the left.
    pub fn move_left(&mut self)
        ensures
            final(self)@ == left(old(self)@),
            settled(final(self)@),
    {
        match self.previous_grapheme_start() {
            Some(start) => self.set_cursor(start),
            None => {},
        }
        proof {
            use_type_invariant(&*self);
        }
    }

    /// Moves one cluster to the right.
    pub fn move_right(&mut self)
        ensures
            final(self)@ == right(old(self)@),
            settled(final(self)@),
    {
        match self.next_grapheme_end() {
            Some(end) => self.set_cursor(end),
            None => {},
        }
        proof {
            use_type_invariant(&*self);
        }
    }

    fn go_to(&mut self, place: usize)
        requires
            place <= old(self)@.text.len(),
        ensures
            final(self)@ == at(old(self)@, settle(old(self)@.text, place as int)),
            settled(final(self)@),
    {
        let mut end: usize = place;
        if place > 0 && place < self.buffer.len() {
            end = self.locate(place).end;
        }
        proof {
            lemma_settled(self@.text, place as int);
        }
        self.set_cursor(end);
    }

    fn cut(&mut self, from: usize, to: usize)
        requires
            from <= to <= old(self)@.text.len(),
        ensures
            final(self)@ == without(old(self)@, from as int, to as int),
    {
        let mut buffer: Vec<char> = Vec::new();
        let mut i: usize = 0;
        let ghost all = self@.text;
        while i < from
            invariant
                i <= from <= all.len(),
                all == self.buffer@,
                buffer@ == all.take(i as int),
            decreases from - i,
        {
            buffer.push(self.buffer[i]);
            assert(all.take(i + 1) =~= all.take(i as int).push(all[i as int]));
            i = i + 1;
        }
        let mut j: usize = to;
        assert(buffer@ =~= all.take(from as int) + all.subrange(to as int, to as int));
        while j < self.buffer.len()
            invariant
                to <= j <= all.len(),
                from <= to,
                all == self.buffer@,
                buffer@ == all.take(from as int) + all.subrange(to as int, j as int),
            decreases all.len() - j,
        {
            buffer.push(self.buffer[j]);
            assert(all.subrange(to as int, j + 1) =~= all.subrange(to as int, j as int).push(
                all[j as int],
            ));
            assert(buffer@ =~= all.take(from as int) + all.subrange(to as int, j + 1));
            j = j + 1;
        }
        assert(all.subrange(to as int, j as int) =~= all.skip(to as int));
        *self = InputEditor::settle_at(buffer, from);
    }

    /// Deletes the cluster to the left: the one that ends at the place.
    pub fn backspace(&mut self)
        ensures
            final(self)@ == erased_left(old(self)@),
            settled(final(self)@),
            old(self)@.cursor > 0 ==> {
                let g = graphemes_of(old(self)@.text);
                let n = cluster_before(old(self)@);
                &&& 0 <= n < g.len()
                &&& boundary(g, n + 1) == old(self)@.cursor
            },
    {
        match self.previous_grapheme_start() {
            Some(start) => {
                proof {
                    use_type_invariant(&*self);
                }
                let end: usize = self.cursor;
                let found = self.locate(end);
                proof {
                    let g = graphemes_of(self@.text);
                    let n = if end == self@.text.len() {
                        g.len() as int
                    } else {
                        choose|n: int| 0 <= n <= g.len() && #[trigger] boundary(g, n) == end
                    };
                    lemma_at_boundary(g, n);
                }
                self.cut(start, end);
            },
            None => {},
        }
        proof {
            use_type_invariant(&*self);
        }
    }

    /// Deletes the cluster to the right: the one that begins at the place.
    pub fn delete(&mut self)
        ensures
            final(self)@ == erased_right(old(self)@),
            settled(final(self)@),
            old(self)@.cursor < old(self)@.text.len() ==> {
                let g = graphemes_of(old(self)@.text);
                let n = cluster_after(old(self)@);
                &&& 0 <= n < g.len()
                &&& boundary(g, n) == old(self)@.cursor
            },
    {
        match self.next_grapheme_end() {
            Some(end) => {
                proof {
                    use_type_invariant(&*self);
                }
                let start: usize = self.cursor;
                let found = self.locate(start + 1);
                proof {
                    let g = graphemes_of(self@.text);
                    let n = choose|n: int|
                        0 <= n <= g.len() && #[trigger] boundary(g, n) == start;
                    lemma_at_boundary(g, n);
                }
                self.cut(start, end);
            },
            None => {},
        }
        proof {
            use_type_invariant(&*self);
        }
    }

    /// Puts a text in and moves behind it, to the end of a cluster.
    fn put_in(&mut self, s: &Vec<char>)
        ensures
            final(self)@ == inserted(old(self)@, s@),
            settled(final(self)@),
    {
        proof {
            use_type_invariant(&*self);
        }
        let ghost e = self@;
        let place: usize = self.cursor;
        let mut buffer: Vec<char> = Vec::new();
        let mut i: usize = 0;
        while i < place
            invariant
                i <= place <= e.text.len(),
                e.text == self.buffer@,
                buffer@ == e.text.take(i as int),
            decreases place - i,
        {
            buffer.push(self.buffer[i]);
            assert(e.text.take(i + 1) =~= e.text.take(i as int).push(e.text[i as int]));
            i = i + 1;
        }
        let ghost head = buffer@;
        let mut k: usize = 0;
        assert(buffer@ =~= head + s@.take(0));
        while k < s.len()
            invariant
                k <= s@.len(),
                buffer@ == head + s@.take(k as int),
            decreases s@.len() - k,
        {
            buffer.push(s[k]);
            assert(s@.take(k + 1) =~= s@.take(k as int).push(s@[k as int]));
            assert(buffer@ =~= head + s@.take(k + 1));
            k = k + 1;
        }
        assert(s@.take(k as int) =~= s@);
        let cursor: usize = buffer.len();
        let ghost front = buffer@;
        let mut j: usize = place;
        assert(buffer@ =~= front + e.text.subrange(place as int, place as int));
        while j < self.buffer.len()
            invariant
                place <= j <= e.text.len(),
                e.text == self.buffer@,
                buffer@ == front + e.text.subrange(place as int, j as int),
            decreases e.text.len() - j,
        {
            buffer.push(self.buffer[j]);
            assert(e.text.subrange(place as int, j + 1) =~= e.text.subrange(
                place as int,
                j as int,
            ).push(e.text[j as int]));
            assert(buffer@ =~= front + e.text.subrange(place as int, j + 1));
            j = j + 1;
        }
        assert(e.text.subrange(place as int, j as int) =~= e.text.skip(place as int));
        let ghost whole = inserted(e, s@).text;
        assert(buffer@ =~= whole);
        *self = InputEditor::settle_at(buffer, cursor);
        proof {
            use_type_invariant(&*self);
        }
    }

    /// Types a character.
    pub fn insert(&mut self, character: char)
        ensures
            final(self)@ == inserted(old(self)@, seq![character]),
            settled(final(self)@),
    {
        let mut s: Vec<char> = Vec::new();
        s.push(character);
        assert(s@ =~= seq![character]);
        self.put_in(&s);
    }

    /// Pastes a text, without its carriage returns.
    pub fn insert_text(&mut self, s: &str)
        ensures
            final(self)@ == inserted(old(self)@, without_returns(s@)),
            settled(final(self)@),
    {
        let chars = text::chars_of(s);
        let mut kept: Vec<char> = Vec::new();
        let mut i: usize = 0;
        assert(s@.take(0) =~= Seq::<char>::empty());
        while i < chars.len()
            invariant
                i <= chars@.len(),
                chars@ == s@,
                kept@ == without_returns(s@.take(i as int)),
            decreases chars@.len() - i,
        {
            proof {
                assert(s@.take(i + 1).drop_last() =~= s@.take(i as int));
                assert(s@.take(i + 1).last() == s@[i as int]);
            }
            if chars[i] != '\r' {
                kept.push(chars[i]);
            }
            i = i + 1;
        }
        assert(s@.take(i as int) =~= s@);
        self.put_in(&kept);
    }

    /// Moves to where the line of the place begins.
    pub fn move_line_start(&mut self)
        ensures
            final(self)@ == to_line_start(old(self)@),
            settled(final(self)@),
    {
        proof {
            use_type_invariant(&*self);
        }
        let mut place: usize = self.cursor;
        while place > 0 && self.buffer[place - 1] != '\n'
            invariant
                place <= self.buffer@.len(),
                line_start(self.buffer@, self.cursor as int) == line_start(
                    self.buffer@,
                    place as int,
                ),
            decreases place,
        {
            place = place - 1;
        }
        self.go_to(place);
    }

    /// Moves to where the line of the place ends.
    pub fn move_line_end(&mut self)
        ensures
            final(self)@ == to_line_end(old(self)@),
            settled(final(self)@),
    {
        proof {
            use_type_invariant(&*self);
        }
        let mut place: usize = self.cursor;
        while place < self.buffer.len() && self.buffer[place] != '\n'
            invariant
                place <= self.buffer@.len(),
                line_stop(self.buffer@, self.cursor as int) == line_stop(
                    self.buffer@,
                    place as int,
                ),
            decreases self.buffer@.len() - place,
        {
            place = place + 1;
        }
        self.go_to(place);
    }

    fn go_left_over(&mut self, space: bool)
        ensures
            final(self)@ == left_over(old(self)@, space),
    {
        while self.cursor > 0 && self.previous_grapheme_is_whitespace() == space
            invariant
                left_over(self@, space) == left_over(old(self)@, space),
            decreases self@.cursor,
        {
            let ghost e = self@;
            let start = self.previous_grapheme_start();
            self.move_left();
            assert(start is Some);
            assert(left_over(e, space) == left_over(left(e), space));
        }
    }

    fn go_right_over(&mut self, space: bool)
        ensures
            final(self)@ == right_over(old(self)@, space),
    {
        while self.cursor < self.buffer.len() && self.next_grapheme_is_whitespace() == space
            invariant
                right_over(self@, space) == right_over(old(self)@, space),
            decreases self@.text.len() - self@.cursor,
        {
            let ghost e = self@;
            let end = self.next_grapheme_end();
            self.move_right();
            assert(end is Some);
            assert(right_over(e, space) == right_over(right(e), space));
        }
    }

    /// Moves one word to the left.
    pub fn move_word_left(&mut self)
        ensures
            final(self)@ == word_left(old(self)@),
            settled(final(self)@),
    {
        self.go_left_over(true);
        self.go_left_over(false);
        proof {
            use_type_invariant(&*self);
        }
    }

    /// Moves one word to the right.
    pub fn move_word_right(&mut self)
        ensures
            final(self)@ == word_right(old(self)@),
            settled(final(self)@),
    {
        self.go_right_over(true);
        self.go_right_over(false);
        proof {
            use_type_invariant(&*self);
        }
    }

    /// Deletes one word to the left.
    pub fn delete_word_left(&mut self)
        ensures
            final(self)@ == erased_word(old(self)@),
            settled(final(self)@),
    {
        proof {
            use_type_invariant(&*self);
            lemma_left_stays(self@, true);
            lemma_left_stays(left_over(self@, true), false);
        }
        let end: usize = self.cursor;
        self.move_word_left();
        let start: usize = self.cursor;
        self.cut(start, end);
        proof {
            use_type_invariant(&*self);
        }
    }

    /// The row and the column of the place on a terminal of the given width.
    pub fn visual_cursor(&self, width: u16) -> (r: (usize, usize))
        ensures
            ({
                let columns = if width == 0 {
                    1int
                } else {
                    width as int
                };
                let place = visual_place(
                    graphemes_of(self@.text.take(self@.cursor)),
                    columns,
                );
                &&& r.0 == place.0 && r.1 == place.1
                &&& r.1 < columns
            }),
            !self@.text.contains('\r') ==> r.0 >= line_feeds(self@.text.take(self@.cursor)),
    {
        proof {
            use_type_invariant(self);
        }
        let part = self.part(0, self.cursor);
        let clusters = graphemes(part.as_str());
        let ghost g = text::views(clusters@);
        let ghost plain = !self@.text.contains('\r');
        proof {
            assert(part@ =~= self@.text.take(self@.cursor));
            if plain {
                assert forall|i: int| 0 <= i < part@.len() implies part@[i] != '\r' by {
                    assert(part@[i] == self@.text[i]);
                }
            }
            assert(part@.take(0) =~= Seq::<char>::empty());
        }
        let columns: usize = if width == 0 {
            1
        } else {
            width as usize
        };
        let mut row: usize = 0;
        let mut column: usize = 0;
        let mut i: usize = 0;
        assert(g.take(0) =~= Seq::<Seq<char>>::empty());
        while i < clusters.len()
            invariant
                i <= clusters@.len(),
                g == text::views(clusters@),
                0 < columns,
                column < columns,
                visual_place(g.take(i as int), columns as int) == (row, column as int),
                text::join(g, Seq::empty()) == part@,
                g == graphemes_of(part@),
                part@.len() <= usize::MAX,
                plain ==> !part@.contains('\r'),
                plain ==> row >= line_feeds(part@.take(boundary(g, i as int))),
                forall|k: int|
                    0 <= k < clusters@.len() && (#[trigger] clusters@[k])@.contains('\n')
                        ==> clusters@[k]@ == seq!['\n'] || clusters@[k]@ == seq!['\r', '\n'],
            decreases clusters@.len() - i,
        {
            proof {
                assert(g.take(i + 1).drop_last() =~= g.take(i as int));
                assert(g.take(i + 1).last() == clusters@[i as int]@);
                assert(g[i as int] == clusters@[i as int]@);
                if plain {
                    lemma_feeds_of_next(g, part@, i as int);
                    lemma_join_prefix(g, part@, i + 1);
                    lemma_feeds_fit(part@.take(boundary(g, i + 1)));
                }
                reveal_strlit("\n");
                assert("\n"@ =~= seq!['\n']);
            }
            let cluster = clusters[i].as_str();
            if text::same(cluster, "\n") {
                row = row.saturating_add(1);
                column = 0;
            } else {
                let w: usize = display_width(cluster);
                if w > 0 && w > columns - column {
                    row = row.saturating_add(1);
                    column = w;
                } else {
                    column = column + w;
                }
                if column >= columns {
                    row = row.saturating_add(1);
                    column = 0;
                }
            }
            i = i + 1;
        }
        proof {
            assert(g.take(i as int) =~= g);
            lemma_ends(part@);
            assert(part@.take(part@.len() as int) =~= part@);
        }
        (row, column)
    }
}

proof fn lemma_left_stays(e: EditorView, space: bool)
    requires
        0 <= e.cursor,
    ensures
        0 <= left_over(e, space).cursor <= e.cursor,
        left_over(e, space).text == e.text,
    decreases e.cursor,
{
    if e.cursor > 0 && space_before(e) == space && 0 <= left(e).cursor < e.cursor {
        lemma_left_stays(left(e), space);
    }
}

/// A line that is edited between two of the characters that a reader sees, or at one of its
/// ends, is edited at such a place after whatever is typed, pasted, deleted or moved.
pub proof fn law_place_stays_between_characters(e: EditorView, s: Seq<char>)
    requires
        settled(e),
    ensures
        settled(inserted(e, s)),
        settled(left(e)),
        settled(right(e)),
        settled(word_left(e)),
        settled(word_right(e)),
        settled(to_line_start(e)),
        settled(to_line_end(e)),
        settled(erased_left(e)),
        settled(erased_right(e)),
        settled(erased_word(e)),
{
    let put = inserted(e, s).text;
    lemma_settled(put, e.cursor + s.len());
    lemma_left_settled(e);
    lemma_right_settled(e);
    lemma_left_over_settled(e, true);
    lemma_left_over_settled(left_over(e, true), false);
    lemma_right_over_settled(e, true);
    lemma_right_over_settled(right_over(e, true), false);
    lemma_settled(e.text, line_start(e.text, e.cursor));
    lemma_settled(e.text, line_stop(e.text, e.cursor));
    if let Some(start) = previous_start(e) {
        lemma_settled(without(e, start, e.cursor).text, start);
    }
    if let Some(end) = next_end(e) {
        lemma_settled(without(e, e.cursor, end).text, e.cursor);
    }
    lemma_settled(erased_word(e).text, word_left(e).cursor);
}

proof fn lemma_left_settled(e: EditorView)
    requires
        settled(e),
    ensures
        settled(left(e)),
{
    let g = graphemes_of(e.text);
    if e.cursor > 0 {
        let n = cluster_before(e);
        lemma_reaching(g, e.cursor, 0);
        if n < 0 {
            assert(boundary(g, 0) == boundary(g, n));
        } else {
            assert(boundary(g, n) == left(e).cursor);
        }
    }
}

proof fn lemma_right_settled(e: EditorView)
    requires
        settled(e),
    ensures
        settled(right(e)),
{
    let g = graphemes_of(e.text);
    if e.cursor < e.text.len() {
        lemma_reaching(g, e.cursor + 1, 0);
        assert(boundary(g, reaching(g, e.cursor + 1, 0)) == right(e).cursor);
    }
}

proof fn lemma_left_over_settled(e: EditorView, space: bool)
    requires
        settled(e),
    ensures
        settled(left_over(e, space)),
    decreases e.cursor,
{
    if e.cursor > 0 && space_before(e) == space && 0 <= left(e).cursor < e.cursor {
        lemma_left_settled(e);
        lemma_left_over_settled(left(e), space);
    }
}

proof fn lemma_right_over_settled(e: EditorView, space: bool)
    requires
        settled(e),
    ensures
        settled(right_over(e, space)),
    decreases e.text.len() - e.cursor,
{
    if e.cursor < e.text.len() && space_after(e) == space && e.cursor < right(e).cursor
        <= e.text.len() {
        lemma_right_settled(e);
        lemma_right_over_settled(right(e), space);
    }
}

/// What is typed stands at the place where it is typed; what was before and after it stays.
pub proof fn law_typing_keeps_the_rest(e: EditorView, s: Seq<char>)
    requires
        0 <= e.cursor <= e.text.len(),
    ensures
        inserted(e, s).text.len() == e.text.len() + s.len(),
        inserted(e, s).text.take(e.cursor) == e.text.take(e.cursor),
        inserted(e, s).text.subrange(e.cursor, e.cursor + s.len()) == s,
        inserted(e, s).text.skip(e.cursor + s.len()) == e.text.skip(e.cursor),
        e.cursor == e.text.len() ==> inserted(e, s).text == e.text + s && inserted(e, s).cursor
            == e.text.len() + s.len(),
{
    let t = inserted(e, s).text;
    assert(t.take(e.cursor) =~= e.text.take(e.cursor));
    assert(t.subrange(e.cursor, e.cursor + s.len()) =~= s);
    assert(t.skip(e.cursor + s.len()) =~= e.text.skip(e.cursor));
    if e.cursor == e.text.len() {
        assert(t =~= e.text + s);
    }
}

/// Moving changes the place and never the text.
pub proof fn law_moving_keeps_the_text(e: EditorView)
    requires
        0 <= e.cursor <= e.text.len(),
    ensures
        left(e).text == e.text,
        right(e).text == e.text,
        word_left(e).text == e.text,
        word_right(e).text == e.text,
        to_line_start(e).text == e.text,
        to_line_end(e).text == e.text,
        e.cursor == 0 ==> left(e) == e,
        e.cursor == e.text.len() ==> right(e) == e,
        0 <= word_left(e).cursor <= e.cursor,
        e.cursor <= word_right(e).cursor <= e.text.len(),
{
    lemma_left_stays(e, true);
    lemma_left_stays(left_over(e, true), false);
    lemma_right_stays(e, true);
    lemma_right_stays(right_over(e, true), false);
}

proof fn lemma_right_stays(e: EditorView, space: bool)
    requires
        e.cursor <= e.text.len(),
    ensures
        e.cursor <= right_over(e, space).cursor <= e.text.len(),
        right_over(e, space).text == e.text,
    decreases e.text.len() - e.cursor,
{
    if e.cursor < e.text.len() && space_after(e) == space && e.cursor < right(e).cursor
        <= e.text.len() {
        lemma_right_stays(right(e), space);
    }
}

/// One step to the left and one to the right lead back, and each passes one of the characters
/// that a reader sees.
pub proof fn law_steps_pass_one_character(s: Seq<char>, n: int)
    requires
        text::join(graphemes_of(s), Seq::empty()) == s,
        forall|i: int| 0 <= i < graphemes_of(s).len() ==> (#[trigger] graphemes_of(s)[i]).len() > 0,
        0 <= n < graphemes_of(s).len(),
    ensures
        ({
            let g = graphemes_of(s);
            let a = EditorView { text: s, cursor: boundary(g, n) };
            let b = EditorView { text: s, cursor: boundary(g, n + 1) };
            &&& right(a) == b
            &&& left(b) == a
            &&& b.cursor - a.cursor == g[n].len()
        }),
{
    let g = graphemes_of(s);
    lemma_ends(s);
    lemma_at_boundary(g, n);
    lemma_at_boundary(g, n + 1);
    lemma_boundary_grows(g, 0, n);
    lemma_boundary_grows(g, n + 1, g.len() as int);
    assert(boundary(g, n + 1) == boundary(g, n) + g[n].len());
    assert(g[n].len() > 0);
}

/// Erasing takes out what lies between the place and where the step would lead, and nothing
/// else.
pub proof fn law_erasing_takes_one_step_out(e: EditorView)
    requires
        0 <= e.cursor <= e.text.len(),
        0 <= left(e).cursor <= e.cursor,
        e.cursor <= right(e).cursor <= e.text.len(),
    ensures
        e.cursor > 0 ==> erased_left(e).text == e.text.take(left(e).cursor) + e.text.skip(
            e.cursor,
        ),
        e.cursor == 0 ==> erased_left(e) == e,
        e.cursor < e.text.len() ==> erased_right(e).text == e.text.take(e.cursor) + e.text.skip(
            right(e).cursor,
        ),
        e.cursor == e.text.len() ==> erased_right(e) == e,
        erased_word(e).text == e.text.take(word_left(e).cursor) + e.text.skip(e.cursor),
        erased_left(e).text.len() + (e.cursor - left(e).cursor) == e.text.len(),
        erased_right(e).text.len() + (right(e).cursor - e.cursor) == e.text.len(),
{
}

/// The start of a line is behind the line break before it, or at the start of the text; its
/// end is at the line break after it, or at the end of the text; no line break is passed.
pub proof fn law_lines_start_and_stop(s: Seq<char>, place: int)
    requires
        0 <= place <= s.len(),
    ensures
        0 <= line_start(s, place) <= place,
        line_start(s, place) > 0 ==> s[line_start(s, place) - 1] == '\n',
        forall|i: int| line_start(s, place) <= i < place ==> #[trigger] s[i] != '\n',
        place <= line_stop(s, place) <= s.len(),
        line_stop(s, place) < s.len() ==> s[line_stop(s, place)] == '\n',
        forall|i: int| place <= i < line_stop(s, place) ==> #[trigger] s[i] != '\n',
{
    lemma_start_of_line(s, place);
    lemma_stop_of_line(s, place);
}

proof fn lemma_start_of_line(s: Seq<char>, place: int)
    requires
        0 <= place <= s.len(),
    ensures
        0 <= line_start(s, place) <= place,
        line_start(s, place) > 0 ==> s[line_start(s, place) - 1] == '\n',
        forall|i: int| line_start(s, place) <= i < place ==> #[trigger] s[i] != '\n',
    decreases place,
{
    if place > 0 && s[place - 1] != '\n' {
        lemma_start_of_line(s, place - 1);
    }
}

proof fn lemma_stop_of_line(s: Seq<char>, place: int)
    requires
        0 <= place <= s.len(),
    ensures
        place <= line_stop(s, place) <= s.len(),
        line_stop(s, place) < s.len() ==> s[line_stop(s, place)] == '\n',
        forall|i: int| place <= i < line_stop(s, place) ==> #[trigger] s[i] != '\n',
    decreases s.len() - place,
{
    if place < s.len() && s[place] != '\n' {
        lemma_stop_of_line(s, place + 1);
    }
}

/// What is pasted loses its carriage returns and nothing else; line breaks are counted one by
/// one.
pub proof fn law_pasted_text(a: Seq<char>, b: Seq<char>)
    ensures
        without_returns(a + b) == without_returns(a) + without_returns(b),
        !without_returns(a).contains('\r'),
        !a.contains('\r') ==> without_returns(a) == a,
        line_feeds(a + b) == line_feeds(a) + line_feeds(b),
        line_feeds(without_returns(a)) == line_feeds(a),
        line_feeds(a) <= a.len(),
    decreases a.len() + b.len(),
{
    if a.len() > 0 && b.len() == 0 {
        law_pasted_text(a.drop_last(), b);
        let w = a.drop_last();
        let u = without_returns(a);
        let v = without_returns(w);
        if a.last() != '\r' {
            assert(u.drop_last() =~= v);
            assert forall|i: int| 0 <= i < u.len() implies #[trigger] u[i] != '\r' by {
                if i < v.len() {
                    assert(v.contains(v[i]));
                }
            }
        }
        if !a.contains('\r') {
            assert(a[a.len() - 1] == a.last());
            assert forall|i: int| 0 <= i < w.len() implies #[trigger] w[i] != '\r' by {
                assert(a[i] == w[i]);
                assert(a.contains(a[i]));
            }
            assert(a.contains(a.last()));
            assert(u =~= a);
        }
    } else if a.len() > 0 {
        law_pasted_text(a, Seq::empty());
    } else {
        assert(without_returns(a) =~= a);
    }
    lemma_pasted_adds_up(a, b);
}

proof fn lemma_pasted_adds_up(a: Seq<char>, b: Seq<char>)
    ensures
        without_returns(a + b) == without_returns(a) + without_returns(b),
        line_feeds(a + b) == line_feeds(a) + line_feeds(b),
    decreases b.len(),
{
    if b.len() == 0 {
        assert(a + b =~= a);
    } else {
        lemma_pasted_adds_up(a, b.drop_last());
        assert((a + b).drop_last() =~= a + b.drop_last());
        assert((a + b).last() == b.last());
    }
    assert(without_returns(a + b) =~= without_returns(a) + without_returns(b));
}

/// A character is shown in the row where it fits: it never stands beyond the width, and a
/// line break begins a row.
pub proof fn law_rows_stay_within_the_width(
    row: usize,
    column: int,
    cluster: Seq<char>,
    columns: int,
    width: int,
)
    requires
        0 <= column < width,
        0 <= columns,
        row < usize::MAX - 1,
    ensures
        cluster == "\n"@ ==> visual_step(row, column, cluster, columns, width) == (
            (row + 1) as usize,
            0int,
        ),
        0 <= visual_step(row, column, cluster, columns, width).1 < width,
        row <= visual_step(row, column, cluster, columns, width).0 <= row + 2,
        cluster != "\n"@ && column + columns < width ==> visual_step(
            row,
            column,
            cluster,
            columns,
            width,
        ) == (row, column + columns),
{
}

/// Line feeds are counted, and nothing else.
pub proof fn law_line_feeds_add_up(a: Seq<char>, b: Seq<char>, c: char)
    ensures
        line_feeds(a + b) == line_feeds(a) + line_feeds(b),
        line_feeds(seq![c]) == (if c == '\n' {
            1nat
        } else {
            0nat
        }),
    decreases b.len(),
{
    if b.len() == 0 {
        assert(a + b =~= a);
    } else {
        law_line_feeds_add_up(a, b.drop_last(), c);
        assert((a + b).drop_last() =~= a + b.drop_last());
        assert((a + b).last() == b.last());
    }
    assert(seq![c].drop_last() =~= Seq::<char>::empty());
    reveal_with_fuel(line_feeds, 2);
}

} // verus!
