//! Text as sequences of Unicode scalar values: trimming, splitting, searching
//! and decimal numbers, each stated over `Seq<char>`.
use vstd::prelude::*;

verus! {

/// `String::push` appends one scalar value at the end of the string.
pub assume_specification[ std::string::String::push ](s: &mut std::string::String, c: char)
    ensures
        final(s)@ == old(s)@.push(c),
;

/// The Unicode `White_Space` property.
pub open spec fn white_space(c: char) -> bool {
    let u = c as u32;
    ||| 9 <= u <= 13
    ||| u == 0x20
    ||| u == 0x85
    ||| u == 0xA0
    ||| u == 0x1680
    ||| 0x2000 <= u <= 0x200A
    ||| u == 0x2028
    ||| u == 0x2029
    ||| u == 0x202F
    ||| u == 0x205F
    ||| u == 0x3000
}

/// Tests the `White_Space` property.
pub fn is_whitespace(c: char) -> (r: bool)
    ensures
        r == white_space(c),
{
    let u: u32 = c as u32;
    (9 <= u && u <= 13) || u == 0x20 || u == 0x85 || u == 0xA0 || u == 0x1680 || (0x2000 <= u && u
        <= 0x200A) || u == 0x2028 || u == 0x2029 || u == 0x202F || u == 0x205F || u == 0x3000
}

/// Every character is white space (in particular, the empty text is blank).
pub open spec fn blank(s: Seq<char>) -> bool {
    forall|i: int| 0 <= i < s.len() ==> white_space(#[trigger] s[i])
}

/// Number of leading white-space characters.
pub open spec fn leading_space(s: Seq<char>) -> nat
    decreases s.len(),
{
    if s.len() > 0 && white_space(s[0]) {
        1 + leading_space(s.drop_first())
    } else {
        0
    }
}

/// Number of leading characters that are not white space.
pub open spec fn leading_word(s: Seq<char>) -> nat
    decreases s.len(),
{
    if s.len() > 0 && !white_space(s[0]) {
        1 + leading_word(s.drop_first())
    } else {
        0
    }
}

/// The text without its leading white space.
pub open spec fn trim_start(s: Seq<char>) -> Seq<char> {
    s.skip(leading_space(s) as int)
}

/// The text without its trailing white space.
pub open spec fn trim_end(s: Seq<char>) -> Seq<char>
    decreases s.len(),
{
    if s.len() > 0 && white_space(s.last()) {
        trim_end(s.drop_last())
    } else {
        s
    }
}

/// The text without white space at either end.
pub open spec fn trim(s: Seq<char>) -> Seq<char> {
    trim_end(trim_start(s))
}

/// A leading run never exceeds the text, and it stops where it says.
pub proof fn lemma_leading_space(s: Seq<char>)
    ensures
        leading_space(s) <= s.len(),
        forall|i: int| 0 <= i < leading_space(s) ==> white_space(#[trigger] s[i]),
        leading_space(s) < s.len() ==> !white_space(s[leading_space(s) as int]),
    decreases s.len(),
{
    if s.len() > 0 && white_space(s[0]) {
        lemma_leading_space(s.drop_first());
        assert forall|i: int| 0 <= i < leading_space(s) implies white_space(#[trigger] s[i]) by {
            if i > 0 {
                assert(s[i] == s.drop_first()[i - 1]);
            }
        }
    }
}

/// A run of `n` white-space characters that stops at `n` is the leading run.
pub proof fn lemma_leading_space_is(s: Seq<char>, n: int)
    requires
        0 <= n <= s.len(),
        forall|i: int| 0 <= i < n ==> white_space(#[trigger] s[i]),
        n < s.len() ==> !white_space(s[n]),
    ensures
        leading_space(s) == n,
    decreases s.len(),
{
    if n > 0 {
        assert forall|i: int| 0 <= i < n - 1 implies white_space(
            #[trigger] s.drop_first()[i],
        ) by {
            assert(s.drop_first()[i] == s[i + 1]);
        }
        lemma_leading_space_is(s.drop_first(), n - 1);
    }
}

/// A run of `n` characters without white space that stops at `n` is the leading word.
pub proof fn lemma_leading_word_is(s: Seq<char>, n: int)
    requires
        0 <= n <= s.len(),
        forall|i: int| 0 <= i < n ==> !white_space(#[trigger] s[i]),
        n < s.len() ==> white_space(s[n]),
    ensures
        leading_word(s) == n,
    decreases s.len(),
{
    if n > 0 {
        assert forall|i: int| 0 <= i < n - 1 implies !white_space(
            #[trigger] s.drop_first()[i],
        ) by {
            assert(s.drop_first()[i] == s[i + 1]);
        }
        lemma_leading_word_is(s.drop_first(), n - 1);
    }
}

/// Cutting white space off the end leaves the longest prefix that ends in something else.
pub proof fn lemma_trim_end_is(s: Seq<char>, n: int)
    requires
        0 <= n <= s.len(),
        forall|i: int| n <= i < s.len() ==> white_space(#[trigger] s[i]),
        n > 0 ==> !white_space(s[n - 1]),
    ensures
        trim_end(s) == s.take(n),
    decreases s.len(),
{
    if n < s.len() {
        lemma_trim_end_is(s.drop_last(), n);
        assert(s.drop_last().take(n) =~= s.take(n));
    } else {
        assert(s.take(n) =~= s);
    }
}

/// A text is blank exactly when nothing is left of it after trimming.
pub proof fn lemma_blank_trim(s: Seq<char>)
    ensures
        blank(s) <==> trim(s).len() == 0,
        blank(s) <==> leading_space(s) == s.len(),
{
    lemma_leading_space(s);
    let t = trim_start(s);
    if blank(s) {
        lemma_leading_space_is(s, s.len() as int);
    } else {
        let i = choose|i: int| 0 <= i < s.len() && !white_space(#[trigger] s[i]);
        assert(leading_space(s) < s.len());
        assert(t[0] == s[leading_space(s) as int]);
        lemma_trim_end_nonempty(t);
    }
}

proof fn lemma_trim_end_nonempty(t: Seq<char>)
    requires
        t.len() > 0,
        !white_space(t[0]),
    ensures
        trim_end(t).len() > 0,
    decreases t.len(),
{
    if white_space(t.last()) {
        lemma_trim_end_nonempty(t.drop_last());
    }
}

/// The characters of a text, in order.
pub fn chars_of(s: &str) -> (v: Vec<char>)
    ensures
        v@ == s@,
{
    let mut v: Vec<char> = Vec::new();
    for c in it: s.chars()
        invariant
            v@ == it.seq().take(it.index() as int),
            it.seq() == s@,
    {
        v.push(c);
    }
    v
}

/// The text made of the given characters.
pub fn string_of(v: &[char]) -> (s: String)
    ensures
        s@ == v@,
{
    string_of_range(v, 0, v.len())
}

/// The text made of the characters from `from` up to, not including, `to`.
pub fn string_of_range(v: &[char], from: usize, to: usize) -> (s: String)
    requires
        from <= to <= v@.len(),
    ensures
        s@ == v@.subrange(from as int, to as int),
{
    let mut s = String::new();
    let mut i: usize = from;
    while i < to
        invariant
            from <= i <= to <= v@.len(),
            s@ == v@.subrange(from as int, i as int),
        decreases to - i,
    {
        s.push(v[i]);
        assert(v@.subrange(from as int, i + 1) =~= v@.subrange(from as int, i as int).push(
            v@[i as int],
        ));
        i = i + 1;
    }
    s
}

/// Two texts are the same sequence of characters.
pub fn same(a: &str, b: &str) -> (r: bool)
    ensures
        r == (a@ == b@),
{
    let x = a.to_owned();
    let y = b.to_owned();
    x == y
}

/// Tests whether every character is white space.
pub fn is_blank(s: &str) -> (r: bool)
    ensures
        r == blank(s@),
        r == (trim(s@).len() == 0),
{
    proof {
        lemma_blank_trim(s@);
    }
    let v = chars_of(s);
    let mut i: usize = 0;
    while i < v.len()
        invariant
            i <= v@.len(),
            v@ == s@,
            forall|j: int| 0 <= j < i ==> white_space(#[trigger] v@[j]),
        decreases v@.len() - i,
    {
        if !is_whitespace(v[i]) {
            assert(!white_space(s@[i as int]));
            proof {
                lemma_blank_trim(s@);
            }
            return false;
        }
        i = i + 1;
    }
    true
}

/// The text without its leading white space.
pub fn trim_start_text(s: &str) -> (r: String)
    ensures
        r@ == trim_start(s@),
{
    let v = chars_of(s);
    let mut i: usize = 0;
    while i < v.len() && is_whitespace(v[i])
        invariant
            i <= v@.len(),
            forall|j: int| 0 <= j < i ==> white_space(#[trigger] v@[j]),
        decreases v@.len() - i,
    {
        i = i + 1;
    }
    proof {
        lemma_leading_space_is(v@, i as int);
        assert(v@.subrange(i as int, v@.len() as int) =~= v@.skip(i as int));
    }
    string_of_range(v.as_slice(), i, v.len())
}

/// The text without white space at either end.
pub fn trim_text(s: &str) -> (r: String)
    ensures
        r@ == trim(s@),
{
    let v = chars_of(s);
    let mut i: usize = 0;
    while i < v.len() && is_whitespace(v[i])
        invariant
            i <= v@.len(),
            forall|j: int| 0 <= j < i ==> white_space(#[trigger] v@[j]),
        decreases v@.len() - i,
    {
        i = i + 1;
    }
    proof {
        lemma_leading_space_is(v@, i as int);
    }
    let mut n: usize = v.len();
    while n > i && is_whitespace(v[n - 1])
        invariant
            i <= n <= v@.len(),
            forall|j: int| n <= j < v@.len() ==> white_space(#[trigger] v@[j]),
        decreases n,
    {
        n = n - 1;
    }
    proof {
        let t = v@.skip(i as int);
        assert forall|j: int| n - i <= j < t.len() implies white_space(#[trigger] t[j]) by {
            assert(t[j] == v@[j + i]);
        }
        lemma_trim_end_is(t, n - i);
        assert(t.take(n - i) =~= v@.subrange(i as int, n as int));
    }
    string_of_range(v.as_slice(), i, n)
}

/// The words of a text: its maximal runs of characters that are not white space.
pub open spec fn words(s: Seq<char>) -> Seq<Seq<char>>
    decreases s.len(),
{
    let t = trim_start(s);
    if t.len() == 0 || leading_word(t) == 0 || leading_word(t) > t.len() || t.len() > s.len() {
        Seq::empty()
    } else {
        seq![t.take(leading_word(t) as int)] + words(t.skip(leading_word(t) as int))
    }
}

/// Splits a text into its words.
pub fn split_words(s: &str) -> (r: Vec<String>)
    ensures
        r@.len() == words(s@).len(),
        forall|i: int| 0 <= i < r@.len() ==> (#[trigger] r@[i])@ == words(s@)[i],
{
    let v = chars_of(s);
    let mut r: Vec<String> = Vec::new();
    let mut i: usize = 0;
    assert(v@.skip(0) =~= v@);
    while i < v.len()
        invariant
            i <= v@.len(),
            v@ == s@,
            r@.len() + words(v@.skip(i as int)).len() == words(s@).len(),
            forall|k: int| 0 <= k < r@.len() ==> (#[trigger] r@[k])@ == words(s@)[k],
            forall|k: int|
                0 <= k < words(v@.skip(i as int)).len() ==> #[trigger] words(v@.skip(i as int))[k]
                    == words(s@)[r@.len() + k],
        decreases v@.len() - i,
    {
        let ghost rest = v@.skip(i as int);
        let mut b: usize = i;
        while b < v.len() && is_whitespace(v[b])
            invariant
                i <= b <= v@.len(),
                forall|j: int| i <= j < b ==> white_space(#[trigger] v@[j]),
            decreases v@.len() - b,
        {
            b = b + 1;
        }
        let mut e: usize = b;
        while e < v.len() && !is_whitespace(v[e])
            invariant
                b <= e <= v@.len(),
                forall|j: int| b <= j < e ==> !white_space(#[trigger] v@[j]),
            decreases v@.len() - e,
        {
            e = e + 1;
        }
        proof {
            assert forall|j: int| 0 <= j < b - i implies white_space(#[trigger] rest[j]) by {
                assert(rest[j] == v@[j + i]);
            }
            lemma_leading_space_is(rest, b - i);
            let t = trim_start(rest);
            assert(t =~= v@.skip(b as int));
            assert forall|j: int| 0 <= j < e - b implies !white_space(#[trigger] t[j]) by {
                assert(t[j] == v@[j + b]);
            }
            lemma_leading_word_is(t, e - b);
            assert(t.skip(e - b) =~= v@.skip(e as int));
            assert(t.take(e - b) =~= v@.subrange(b as int, e as int));
        }
        if b == e {
            return r;
        }
        let w = string_of_range(v.as_slice(), b, e);
        r.push(w);
        proof {
            let t = trim_start(rest);
            assert(words(rest) == seq![t.take(e - b)] + words(v@.skip(e as int)));
            assert(words(rest)[0] == w@);
            assert forall|k: int| 0 <= k < words(v@.skip(e as int)).len() implies #[trigger] words(
                v@.skip(e as int),
            )[k] == words(s@)[r@.len() + k] by {
                assert(words(rest)[k + 1] == words(v@.skip(e as int))[k]);
            }
        }
        i = e;
    }
    r
}

/// `p` stands at position `at` of `s`.
pub open spec fn occurs_at(s: Seq<char>, p: Seq<char>, at: int) -> bool {
    0 <= at && at + p.len() <= s.len() && s.subrange(at, at + p.len()) == p
}

/// `p` stands somewhere in `s`.
pub open spec fn has_text(s: Seq<char>, p: Seq<char>) -> bool {
    exists|at: int| #[trigger] occurs_at(s, p, at)
}

/// `s` begins with `p`.
pub open spec fn has_prefix(s: Seq<char>, p: Seq<char>) -> bool {
    p.len() <= s.len() && s.take(p.len() as int) == p
}

/// The first position at or after `from` where `p` stands, if there is one.
pub open spec fn first_from(s: Seq<char>, p: Seq<char>, from: int) -> Option<int>
    decreases s.len() + 1 - from,
{
    if from < 0 || from + p.len() > s.len() {
        None
    } else if occurs_at(s, p, from) {
        Some(from)
    } else {
        first_from(s, p, from + 1)
    }
}

/// The search finds a position exactly when there is one, and the first.
pub proof fn lemma_first_from(s: Seq<char>, p: Seq<char>, from: int)
    requires
        0 <= from,
    ensures
        match first_from(s, p, from) {
            Some(at) => from <= at && occurs_at(s, p, at) && forall|k: int|
                from <= k < at ==> !#[trigger] occurs_at(s, p, k),
            None => forall|k: int| from <= k ==> !#[trigger] occurs_at(s, p, k),
        },
    decreases s.len() + 1 - from,
{
    if from + p.len() > s.len() {
    } else if occurs_at(s, p, from) {
    } else {
        lemma_first_from(s, p, from + 1);
    }
}

/// Tests whether `p` stands at position `at` of `v`.
pub fn chars_at(v: &[char], p: &[char], at: usize) -> (r: bool)
    requires
        at <= v@.len(),
    ensures
        r == occurs_at(v@, p@, at as int),
{
    if p.len() > v.len() - at {
        return false;
    }
    let mut i: usize = 0;
    while i < p.len()
        invariant
            i <= p@.len(),
            at + p@.len() <= v.len(),
            forall|j: int| 0 <= j < i ==> v@[at + j] == #[trigger] p@[j],
        decreases p@.len() - i,
    {
        if v[at + i] != p[i] {
            proof {
                let w = v@.subrange(at as int, at + p@.len());
                assert(w[i as int] == v@[at + i]);
            }
            return false;
        }
        i = i + 1;
    }
    assert(v@.subrange(at as int, at + p@.len()) =~= p@);
    true
}

/// The first position at or after `from` where `p` stands in `v`.
pub fn find_chars(v: &[char], p: &[char], from: usize) -> (r: Option<usize>)
    requires
        from <= v@.len(),
    ensures
        match r {
            Some(at) => first_from(v@, p@, from as int) == Some(at as int) && from <= at && at
                + p@.len() <= v@.len() && occurs_at(v@, p@, at as int),
            None => first_from(v@, p@, from as int) is None,
        },
{
    let mut i: usize = from;
    while i <= v.len() && p.len() <= v.len() - i
        invariant
            from <= i <= v@.len() + 1,
            first_from(v@, p@, from as int) == first_from(v@, p@, i as int),
        decreases v@.len() + 1 - i,
    {
        if chars_at(v, p, i) {
            return Some(i);
        }
        if i == v.len() {
            assert(first_from(v@, p@, i + 1) is None);
            return None;
        }
        i = i + 1;
    }
    None
}

/// Tests whether `p` stands somewhere in `s`.
pub fn contains(s: &str, p: &str) -> (r: bool)
    ensures
        r == has_text(s@, p@),
{
    let v = chars_of(s);
    let q = chars_of(p);
    let found = find_chars(v.as_slice(), q.as_slice(), 0);
    proof {
        lemma_first_from(v@, q@, 0);
    }
    found.is_some()
}

/// A character with which a name goes on: a letter, a digit, one of the signs `-`, `_` and
/// `.`, or an opening bracket.
pub open spec fn goes_on(c: char) -> bool {
    let u = c as u32;
    ||| 48 <= u <= 57
    ||| 65 <= u <= 90
    ||| 97 <= u <= 122
    ||| u == 45
    ||| u == 95
    ||| u == 46
    ||| u == 40
    ||| 0xC0 <= u && !(0x2000 <= u <= 0x206F) && !(0x3000 <= u <= 0x303F) && !(0xFF00 <= u
        <= 0xFF0F) && !(0xFF1A <= u <= 0xFF20)
}

fn name_goes_on(c: char) -> (r: bool)
    ensures
        r == goes_on(c),
{
    let u: u32 = c as u32;
    (48 <= u && u <= 57) || (65 <= u && u <= 90) || (97 <= u && u <= 122) || u == 45 || u == 95
        || u == 46 || u == 40 || (0xC0 <= u && !(0x2000 <= u && u <= 0x206F) && !(0x3000 <= u && u
        <= 0x303F) && !(0xFF00 <= u && u <= 0xFF0F) && !(0xFF1A <= u && u <= 0xFF20))
}

/// The text `p` occurs in `s`, and not as the beginning of a longer name.
pub open spec fn has_whole(s: Seq<char>, p: Seq<char>) -> bool {
    exists|i: int|
        #[trigger] occurs_at(s, p, i) && (i + p.len() == s.len() || !goes_on(s[i + p.len()]))
}

/// Tests whether a text occurs, and not as the beginning of a longer name.
pub fn contains_whole(s: &str, p: &str) -> (r: bool)
    ensures
        r == has_whole(s@, p@),
{
    let v = chars_of(s);
    let q = chars_of(p);
    if q.len() > v.len() {
        return false;
    }
    let total: usize = v.len();
    let last: usize = total - q.len();
    let mut i: usize = 0;
    loop
        invariant
            v@ == s@,
            q@ == p@,
            i <= last,
            total == v@.len(),
            last + q@.len() == total,
            forall|k: int|
                0 <= k < i ==> !(#[trigger] occurs_at(s@, p@, k) && (k + p@.len() == s@.len()
                    || !goes_on(s@[k + p@.len()]))),
        decreases last - i,
    {
        if chars_at(v.as_slice(), q.as_slice(), i) {
            if i == last || !name_goes_on(v[i + q.len()]) {
                assert(occurs_at(s@, p@, i as int));
                return true;
            }
        }
        if i == last {
            return false;
        }
        i = i + 1;
    }
}

/// Tests whether `s` begins with `p`.
pub fn starts_with(s: &str, p: &str) -> (r: bool)
    ensures
        r == has_prefix(s@, p@),
{
    let v = chars_of(s);
    let q = chars_of(p);
    let r = chars_at(v.as_slice(), q.as_slice(), 0);
    proof {
        if p@.len() <= s@.len() {
            assert(s@.subrange(0, p@.len() as int) =~= s@.take(p@.len() as int));
        }
    }
    r
}

/// What follows the prefix `p`, if `s` begins with it.
pub fn strip_prefix(s: &str, p: &str) -> (r: Option<String>)
    ensures
        match r {
            Some(rest) => has_prefix(s@, p@) && rest@ == s@.skip(p@.len() as int),
            None => !has_prefix(s@, p@),
        },
{
    if starts_with(s, p) {
        let v = chars_of(s);
        let q = chars_of(p);
        proof {
            assert(v@.subrange(p@.len() as int, v@.len() as int) =~= s@.skip(p@.len() as int));
        }
        Some(string_of_range(v.as_slice(), q.len(), v.len()))
    } else {
        None
    }
}

/// The texts put together with `sep` between neighbours.
pub open spec fn join(parts: Seq<Seq<char>>, sep: Seq<char>) -> Seq<char>
    decreases parts.len(),
{
    if parts.len() == 0 {
        Seq::empty()
    } else if parts.len() == 1 {
        parts[0]
    } else {
        join(parts.drop_last(), sep) + sep + parts.last()
    }
}

/// The views of a list of texts.
pub open spec fn views(parts: Seq<String>) -> Seq<Seq<char>> {
    Seq::new(parts.len(), |i: int| parts[i]@)
}

/// Puts the texts together with `sep` between neighbours.
pub fn join_texts(parts: &Vec<String>, sep: &str) -> (r: String)
    ensures
        r@ == join(views(parts@), sep@),
{
    let mut r = String::new();
    let mut i: usize = 0;
    while i < parts.len()
        invariant
            i <= parts@.len(),
            r@ == join(views(parts@).take(i as int), sep@),
        decreases parts@.len() - i,
    {
        proof {
            let all = views(parts@);
            assert(all.take(i + 1).drop_last() =~= all.take(i as int));
            assert(all.take(i + 1).last() == parts@[i as int]@);
        }
        if i == 0 {
            r.append(parts[i].as_str());
            proof {
                assert(r@ =~= parts@[0]@);
            }
        } else {
            r.append(sep);
            r.append(parts[i].as_str());
        }
        i = i + 1;
    }
    assert(views(parts@).take(i as int) =~= views(parts@));
    r
}

/// Position of the first line feed at or after `from`, or the length.
pub open spec fn line_end(s: Seq<char>, from: int) -> int
    decreases s.len() - from,
{
    if from < 0 || from >= s.len() {
        s.len() as int
    } else if s[from] == '\n' {
        from
    } else {
        line_end(s, from + 1)
    }
}

/// A line without the carriage return that may end it.
pub open spec fn strip_cr(s: Seq<char>) -> Seq<char> {
    if s.len() > 0 && s.last() == '\r' {
        s.drop_last()
    } else {
        s
    }
}

/// The lines from `from` on: what stands between line feeds, each without a
/// trailing carriage return; a final line feed opens no further line.
pub open spec fn lines_from(s: Seq<char>, from: int) -> Seq<Seq<char>>
    decreases s.len() - from,
{
    if from < 0 || from >= s.len() {
        Seq::empty()
    } else {
        let e = line_end(s, from);
        if e < from || e > s.len() {
            Seq::empty()
        } else if e == s.len() {
            seq![s.subrange(from, e)]
        } else {
            seq![strip_cr(s.subrange(from, e))] + lines_from(s, e + 1)
        }
    }
}

/// The lines of a text.
pub open spec fn lines(s: Seq<char>) -> Seq<Seq<char>> {
    lines_from(s, 0)
}

proof fn lemma_line_end(s: Seq<char>, from: int, e: int)
    requires
        0 <= from <= e <= s.len(),
        forall|j: int| from <= j < e ==> #[trigger] s[j] != '\n',
        e < s.len() ==> s[e] == '\n',
    ensures
        line_end(s, from) == e,
    decreases e - from,
{
    if from < e {
        lemma_line_end(s, from + 1, e);
    }
}

/// Splits a text into its lines.
pub fn split_lines(s: &str) -> (r: Vec<String>)
    ensures
        views(r@) == lines(s@),
{
    let v = chars_of(s);
    let mut r: Vec<String> = Vec::new();
    let mut i: usize = 0;
    assert(views(r@) + lines_from(v@, 0) =~= lines(s@));
    while i < v.len()
        invariant
            i <= v@.len(),
            v@ == s@,
            views(r@) + lines_from(v@, i as int) == lines(s@),
        decreases v@.len() - i,
    {
        let mut e: usize = i;
        while e < v.len() && v[e] != '\n'
            invariant
                i <= e <= v@.len(),
                forall|j: int| i <= j < e ==> #[trigger] v@[j] != '\n',
            decreases v@.len() - e,
        {
            e = e + 1;
        }
        proof {
            lemma_line_end(v@, i as int, e as int);
        }
        let ghost before = views(r@);
        let mut stop: usize = e;
        if e < v.len() && e > i && v[e - 1] == '\r' {
            stop = e - 1;
        }
        let line = string_of_range(v.as_slice(), i, stop);
        let next: usize = if e < v.len() {
            e + 1
        } else {
            e
        };
        proof {
            let raw = v@.subrange(i as int, e as int);
            if e < v@.len() {
                if e > i {
                    assert(raw.last() == v@[e - 1]);
                }
                assert(line@ =~= strip_cr(raw));
                assert(lines_from(v@, i as int) == seq![line@] + lines_from(v@, next as int));
            } else {
                assert(line@ =~= raw);
                assert(lines_from(v@, i as int) == seq![line@]);
                assert(lines_from(v@, next as int).len() == 0);
            }
        }
        r.push(line);
        proof {
            assert(views(r@) =~= before.push(line@));
            assert(views(r@) + lines_from(v@, next as int) =~= before + lines_from(v@, i as int));
        }
        i = next;
    }
    assert(lines_from(v@, i as int).len() == 0);
    assert(views(r@) =~= lines(s@));
    r
}

/// The ASCII lower case of a character; others stay.
pub open spec fn ascii_lower(c: char) -> char {
    if 'A' <= c <= 'Z' {
        (c as u32 + 32) as char
    } else {
        c
    }
}

/// The text with each ASCII capital in lower case.
pub open spec fn lower(s: Seq<char>) -> Seq<char> {
    s.map_values(|c: char| ascii_lower(c))
}

/// The ASCII lower case of a character; others stay.
pub fn to_ascii_lower(c: char) -> (r: char)
    ensures
        r == ascii_lower(c),
{
    if 'A' <= c && c <= 'Z' {
        let u: u8 = c as u8;
        (u + 32) as char
    } else {
        c
    }
}

/// The text with each ASCII capital in lower case.
pub fn lower_text(s: &str) -> (r: String)
    ensures
        r@ == lower(s@),
{
    let v = chars_of(s);
    let mut r = String::new();
    let mut i: usize = 0;
    while i < v.len()
        invariant
            i <= v@.len(),
            v@ == s@,
            r@ == lower(s@.take(i as int)),
        decreases v@.len() - i,
    {
        r.push(to_ascii_lower(v[i]));
        assert(lower(s@.take(i + 1)) =~= lower(s@.take(i as int)).push(ascii_lower(s@[i as int])));
        i = i + 1;
    }
    assert(s@.take(i as int) =~= s@);
    r
}

/// The decimal digit of `d`.
pub open spec fn digit_char(d: nat) -> char {
    (48 + d) as char
}

/// The decimal digits of `n`, without leading zeros.
pub open spec fn decimal(n: nat) -> Seq<char>
    decreases n,
{
    if n < 10 {
        seq![digit_char(n)]
    } else {
        decimal(n / 10).push(digit_char(n % 10))
    }
}

/// The decimal digits of an integer, with a minus sign where it is negative.
pub open spec fn signed_decimal(n: int) -> Seq<char> {
    if n < 0 {
        seq!['-'] + decimal((-n) as nat)
    } else {
        decimal(n as nat)
    }
}

fn push_digit(s: &mut String, d: u64)
    requires
        d < 10,
    ensures
        final(s)@ == old(s)@.push(digit_char(d as nat)),
{
    let u: u8 = 48 + d as u8;
    s.push(u as char);
}

/// Writes `n` in decimal.
pub fn decimal_text(n: u64) -> (r: String)
    ensures
        r@ == decimal(n as nat),
    decreases n,
{
    if n < 10 {
        let mut r = String::new();
        push_digit(&mut r, n);
        assert(r@ =~= decimal(n as nat));
        r
    } else {
        let mut r = decimal_text(n / 10);
        push_digit(&mut r, n % 10);
        r
    }
}

/// Writes an integer in decimal.
pub fn signed_decimal_text(n: i64) -> (r: String)
    ensures
        r@ == signed_decimal(n as int),
{
    if n < 0 {
        let mut r = String::new();
        r.push('-');
        let m: u64 = if n == i64::MIN {
            0x8000_0000_0000_0000
        } else {
            (-n) as u64
        };
        let d = decimal_text(m);
        r.append(d.as_str());
        assert(r@ =~= seq!['-'] + decimal((-n) as nat));
        r
    } else {
        decimal_text(n as u64)
    }
}

/// All characters are ASCII digits.
pub open spec fn all_digits(s: Seq<char>) -> bool {
    forall|i: int| 0 <= i < s.len() ==> '0' <= #[trigger] s[i] <= '9'
}

/// The number that a string of digits writes.
pub open spec fn digits_value(s: Seq<char>) -> nat
    decreases s.len(),
{
    if s.len() == 0 {
        0
    } else {
        (digits_value(s.drop_last()) * 10 + (s.last() as u32 - 48)) as nat
    }
}

/// The text after one optional plus sign.
pub open spec fn after_plus(s: Seq<char>) -> Seq<char> {
    if s.len() > 0 && s[0] == '+' {
        s.drop_first()
    } else {
        s
    }
}

/// What a text writes as an unsigned number up to `max`: digits, at least one,
/// after an optional plus sign.
pub open spec fn unsigned_value(s: Seq<char>, max: nat) -> Option<nat> {
    let d = after_plus(s);
    if d.len() > 0 && all_digits(d) && digits_value(d) <= max {
        Some(digits_value(d))
    } else {
        None
    }
}

proof fn lemma_digits_grow(s: Seq<char>, n: int)
    requires
        0 <= n <= s.len(),
        all_digits(s),
    ensures
        digits_value(s.take(n)) <= digits_value(s),
    decreases s.len() - n,
{
    if n < s.len() {
        lemma_digits_grow(s, n + 1);
        let t = s.take(n + 1);
        assert(t.drop_last() =~= s.take(n));
        assert(t.last() == s[n]);
    } else {
        assert(s.take(n) =~= s);
    }
}

/// Reads an unsigned number of at most `max`.
pub fn parse_unsigned(s: &str, max: u64) -> (r: Option<u64>)
    ensures
        match r {
            Some(n) => unsigned_value(s@, max as nat) == Some(n as nat) && n <= max,
            None => unsigned_value(s@, max as nat) is None,
        },
{
    let v = chars_of(s);
    let start: usize = if v.len() > 0 && v[0] == '+' {
        1
    } else {
        0
    };
    let ghost d = after_plus(s@);
    assert(d =~= v@.skip(start as int));
    if start == v.len() {
        return None;
    }
    let mut n: u64 = 0;
    let mut i: usize = start;
    assert(d.take(0) =~= Seq::<char>::empty());
    while i < v.len()
        invariant
            start <= i <= v@.len(),
            start < v@.len(),
            d == after_plus(s@),
            d == v@.skip(start as int),
            n <= max,
            n == digits_value(d.take(i - start)),
            forall|j: int| 0 <= j < i - start ==> '0' <= #[trigger] d[j] <= '9',
        decreases v@.len() - i,
    {
        let c = v[i];
        assert(d[i - start] == c);
        if c < '0' || c > '9' {
            return None;
        }
        let x: u64 = c as u64 - 48;
        proof {
            let t = d.take(i + 1 - start);
            assert(t.drop_last() =~= d.take(i - start));
            assert(t.last() == c);
            if all_digits(d) {
                lemma_digits_grow(d, i + 1 - start);
            }
        }
        if x > max || n > max / 10 || n * 10 > max - x {
            return None;
        }
        n = n * 10 + x;
        i = i + 1;
    }
    assert(d.take(i - start) =~= d);
    Some(n)
}

/// The text without leading characters `c`.
pub open spec fn trim_char_start(s: Seq<char>, c: char) -> Seq<char>
    decreases s.len(),
{
    if s.len() > 0 && s[0] == c {
        trim_char_start(s.drop_first(), c)
    } else {
        s
    }
}

/// The text without trailing characters `c`.
pub open spec fn trim_char_end(s: Seq<char>, c: char) -> Seq<char>
    decreases s.len(),
{
    if s.len() > 0 && s.last() == c {
        trim_char_end(s.drop_last(), c)
    } else {
        s
    }
}

proof fn lemma_trim_char_start(s: Seq<char>, c: char, n: int)
    requires
        0 <= n <= s.len(),
        forall|i: int| 0 <= i < n ==> #[trigger] s[i] == c,
        n < s.len() ==> s[n] != c,
    ensures
        trim_char_start(s, c) == s.skip(n),
    decreases n,
{
    if n > 0 {
        assert forall|i: int| 0 <= i < n - 1 implies #[trigger] s.drop_first()[i] == c by {
            assert(s.drop_first()[i] == s[i + 1]);
        }
        lemma_trim_char_start(s.drop_first(), c, n - 1);
        assert(s.drop_first().skip(n - 1) =~= s.skip(n));
    } else {
        assert(s.skip(0) =~= s);
    }
}

proof fn lemma_trim_char_end(s: Seq<char>, c: char, n: int)
    requires
        0 <= n <= s.len(),
        forall|i: int| n <= i < s.len() ==> #[trigger] s[i] == c,
        n > 0 ==> s[n - 1] != c,
    ensures
        trim_char_end(s, c) == s.take(n),
    decreases s.len(),
{
    if n < s.len() {
        lemma_trim_char_end(s.drop_last(), c, n);
        assert(s.drop_last().take(n) =~= s.take(n));
    } else {
        assert(s.take(n) =~= s);
    }
}

/// The text without trailing characters `c`.
pub fn trim_char_end_text(s: &str, c: char) -> (r: String)
    ensures
        r@ == trim_char_end(s@, c),
{
    let v = chars_of(s);
    let mut n: usize = v.len();
    while n > 0 && v[n - 1] == c
        invariant
            n <= v@.len(),
            forall|j: int| n <= j < v@.len() ==> #[trigger] v@[j] == c,
        decreases n,
    {
        n = n - 1;
    }
    proof {
        lemma_trim_char_end(v@, c, n as int);
        assert(v@.subrange(0, n as int) =~= v@.take(n as int));
    }
    string_of_range(v.as_slice(), 0, n)
}

/// The text without leading characters `c`.
pub fn trim_char_start_text(s: &str, c: char) -> (r: String)
    ensures
        r@ == trim_char_start(s@, c),
{
    let v = chars_of(s);
    let mut n: usize = 0;
    while n < v.len() && v[n] == c
        invariant
            n <= v@.len(),
            forall|j: int| 0 <= j < n ==> #[trigger] v@[j] == c,
        decreases v@.len() - n,
    {
        n = n + 1;
    }
    proof {
        lemma_trim_char_start(v@, c, n as int);
        assert(v@.subrange(n as int, v@.len() as int) =~= v@.skip(n as int));
    }
    string_of_range(v.as_slice(), n, v.len())
}

/// What is left after trimming one character is a part of the text that does not
/// begin with it.
pub proof fn lemma_trim_char_start_shape(s: Seq<char>, c: char)
    ensures
        trim_char_start(s, c).len() <= s.len(),
        trim_char_start(s, c) == s.skip(s.len() - trim_char_start(s, c).len()),
        trim_char_start(s, c).len() > 0 ==> trim_char_start(s, c)[0] != c,
        s.len() > 0 && s[0] != c ==> trim_char_start(s, c) == s,
    decreases s.len(),
{
    if s.len() > 0 && s[0] == c {
        lemma_trim_char_start_shape(s.drop_first(), c);
        let t = trim_char_start(s.drop_first(), c);
        assert(s.drop_first().skip(s.len() - 1 - t.len()) =~= s.skip(s.len() - t.len()));
    } else {
        assert(s.skip(0) =~= s);
    }
}

/// What is left after trimming one character is a part of the text that does not
/// end with it.
pub proof fn lemma_trim_char_end_shape(s: Seq<char>, c: char)
    ensures
        trim_char_end(s, c).len() <= s.len(),
        trim_char_end(s, c) == s.take(trim_char_end(s, c).len() as int),
        trim_char_end(s, c).len() > 0 ==> trim_char_end(s, c).last() != c,
        s.len() > 0 && s.last() != c ==> trim_char_end(s, c) == s,
    decreases s.len(),
{
    if s.len() > 0 && s.last() == c {
        lemma_trim_char_end_shape(s.drop_last(), c);
        let t = trim_char_end(s.drop_last(), c);
        assert(s.drop_last().take(t.len() as int) =~= s.take(t.len() as int));
    } else {
        assert(s.take(s.len() as int) =~= s);
    }
}

/// A text that neither begins nor ends with white space is not changed by trimming.
pub proof fn lemma_trim_unchanged(s: Seq<char>)
    requires
        s.len() > 0,
        !white_space(s[0]),
        !white_space(s.last()),
    ensures
        trim(s) == s,
{
    lemma_leading_space_is(s, 0);
    assert(s.skip(0) =~= s);
    lemma_trim_end_is(s, s.len() as int);
    assert(s.take(s.len() as int) =~= s);
}

/// The order of texts: by the first character in which they differ, a text standing
/// before those that continue it.
pub open spec fn before(a: Seq<char>, b: Seq<char>) -> bool
    decreases a.len(),
{
    if b.len() == 0 {
        false
    } else if a.len() == 0 {
        true
    } else if a[0] != b[0] {
        a[0] < b[0]
    } else {
        before(a.drop_first(), b.drop_first())
    }
}

/// The order of texts is a strict order in which any two different texts stand one
/// way or the other.
pub proof fn lemma_before_total(a: Seq<char>, b: Seq<char>)
    ensures
        !(before(a, b) && before(b, a)),
        before(a, b) || before(b, a) || a == b,
        a == b ==> !before(a, b),
    decreases a.len(),
{
    if a.len() > 0 && b.len() > 0 && a[0] == b[0] {
        lemma_before_total(a.drop_first(), b.drop_first());
        if a.drop_first() == b.drop_first() {
            assert(a =~= seq![a[0]] + a.drop_first());
            assert(b =~= seq![b[0]] + b.drop_first());
        }
    } else if a.len() == 0 && b.len() == 0 {
        assert(a =~= b);
    }
}

/// The order of texts carries over.
pub proof fn lemma_before_transitive(a: Seq<char>, b: Seq<char>, c: Seq<char>)
    requires
        before(a, b),
        before(b, c),
    ensures
        before(a, c),
    decreases a.len(),
{
    if a.len() > 0 && b.len() > 0 && c.len() > 0 && a[0] == b[0] && b[0] == c[0] {
        lemma_before_transitive(a.drop_first(), b.drop_first(), c.drop_first());
    }
}

/// Tests whether `a` stands before `b`.
pub fn is_before(a: &str, b: &str) -> (r: bool)
    ensures
        r == before(a@, b@),
{
    let x = chars_of(a);
    let y = chars_of(b);
    let mut i: usize = 0;
    assert(x@.skip(0) =~= x@ && y@.skip(0) =~= y@);
    while i < x.len() && i < y.len()
        invariant
            i <= x@.len(),
            i <= y@.len(),
            x@ == a@,
            y@ == b@,
            before(a@, b@) == before(x@.skip(i as int), y@.skip(i as int)),
        decreases x@.len() - i,
    {
        assert(x@.skip(i as int).drop_first() =~= x@.skip(i + 1));
        assert(y@.skip(i as int).drop_first() =~= y@.skip(i + 1));
        if x[i] != y[i] {
            return x[i] < y[i];
        }
        i = i + 1;
    }
    i < y.len()
}

/// Tests whether a text is in a list.
pub fn contains_text(v: &Vec<String>, s: &str) -> (r: bool)
    ensures
        r == views(v@).contains(s@),
{
    let mut i: usize = 0;
    while i < v.len()
        invariant
            i <= v@.len(),
            forall|k: int| 0 <= k < i ==> (#[trigger] v@[k])@ != s@,
        decreases v@.len() - i,
    {
        if same(v[i].as_str(), s) {
            assert(views(v@)[i as int] == s@);
            return true;
        }
        i = i + 1;
    }
    proof {
        let views = views(v@);
        assert forall|k: int| 0 <= k < views.len() implies views[k] != s@ by {
            assert(views[k] == v@[k]@);
        }
    }
    false
}

/// Where the digits that begin at `from` end.
pub open spec fn digits_end(s: Seq<char>, from: int) -> int
    decreases s.len() - from,
{
    if from < 0 || from >= s.len() || !('0' <= s[from] <= '9') {
        from
    } else {
        digits_end(s, from + 1)
    }
}

/// Why a text is no unsigned number up to `max`.
pub open spec fn number_error(s: Seq<char>, max: nat) -> Seq<char> {
    let d = after_plus(s);
    if s.len() == 0 {
        "cannot parse integer from empty string"@
    } else if digits_value(d.take(digits_end(d, 0))) > max {
        "number too large to fit in target type"@
    } else {
        "invalid digit found in string"@
    }
}

proof fn lemma_digits_end(s: Seq<char>, from: int)
    requires
        0 <= from <= s.len(),
    ensures
        from <= digits_end(s, from) <= s.len(),
        forall|i: int| from <= i < digits_end(s, from) ==> '0' <= #[trigger] s[i] <= '9',
    decreases s.len() - from,
{
    if from < s.len() && '0' <= s[from] <= '9' {
        lemma_digits_end(s, from + 1);
    }
}

/// Why a text that is no unsigned number up to `max` is none.
pub fn number_error_text(s: &str, max: u64) -> (r: &'static str)
    ensures
        r@ == number_error(s@, max as nat),
{
    let v = chars_of(s);
    if v.len() == 0 {
        return "cannot parse integer from empty string";
    }
    let start: usize = if v[0] == '+' {
        1
    } else {
        0
    };
    let ghost d = after_plus(s@);
    assert(d =~= v@.skip(start as int));
    let mut n: u64 = 0;
    let mut i: usize = start;
    assert(d.take(0) =~= Seq::<char>::empty());
    while i < v.len() && '0' <= v[i] && v[i] <= '9'
        invariant
            start <= i <= v@.len(),
            s@.len() > 0,
            d == after_plus(s@),
            d == v@.skip(start as int),
            n <= max,
            n == digits_value(d.take(i - start)),
            digits_end(d, 0) == digits_end(d, i - start),
        decreases v@.len() - i,
    {
        let c = v[i];
        assert(d[i - start] == c);
        let x: u64 = c as u64 - 48;
        proof {
            let t = d.take(i + 1 - start);
            assert(t.drop_last() =~= d.take(i - start));
            assert(t.last() == c);
            assert(digits_end(d, i - start) == digits_end(d, i + 1 - start));
        }
        let fits = x <= max && n <= (max - x) / 10;
        if !fits {
            proof {
                lemma_digits_end(d, i + 1 - start);
                let e = digits_end(d, 0);
                let run = d.take(e);
                assert(e >= i + 1 - start);
                lemma_digits_end(d, 0);
                assert(all_digits(run));
                lemma_digits_grow(run, i + 1 - start);
                assert(run.take(i + 1 - start) =~= d.take(i + 1 - start));
            }
            return "number too large to fit in target type";
        }
        n = n * 10 + x;
        i = i + 1;
    }
    "invalid digit found in string"
}

/// Puts the texts from `from` up to, not including, `to` together with `sep` between
/// neighbours.
pub fn join_range(parts: &Vec<String>, from: usize, to: usize, sep: &str) -> (r: String)
    requires
        from <= to <= parts@.len(),
    ensures
        r@ == join(views(parts@).subrange(from as int, to as int), sep@),
{
    let mut some: Vec<String> = Vec::new();
    let mut i: usize = from;
    while i < to
        invariant
            from <= i <= to <= parts@.len(),
            some@.len() == i - from,
            forall|k: int| 0 <= k < i - from ==> (#[trigger] some@[k])@ == parts@[from + k]@,
        decreases to - i,
    {
        some.push(parts[i].clone());
        i = i + 1;
    }
    assert(views(some@) =~= views(parts@).subrange(from as int, to as int));
    join_texts(&some, sep)
}

/// The text with `to` in the place of every `from`.
pub open spec fn replaced(s: Seq<char>, from: char, to: char) -> Seq<char> {
    s.map_values(
        |c: char|
            if c == from {
                to
            } else {
                c
            },
    )
}

/// Puts `to` in the place of every `from`.
pub fn replace_char(s: &str, from: char, to: char) -> (r: String)
    ensures
        r@ == replaced(s@, from, to),
{
    let v = chars_of(s);
    let mut r = String::new();
    let mut i: usize = 0;
    while i < v.len()
        invariant
            i <= v@.len(),
            v@ == s@,
            r@ == replaced(s@.take(i as int), from, to),
        decreases v@.len() - i,
    {
        let c = if v[i] == from {
            to
        } else {
            v[i]
        };
        r.push(c);
        proof {
            assert(s@.take(i + 1) =~= s@.take(i as int).push(s@[i as int]));
            assert(replaced(s@.take(i + 1), from, to) =~= replaced(
                s@.take(i as int),
                from,
                to,
            ).push(c));
        }
        i = i + 1;
    }
    assert(s@.take(i as int) =~= s@);
    r
}

/// How `Debug` writes a text: in quotes, with escapes.
pub uninterp spec fn debug_text_of(s: Seq<char>) -> Seq<char>;

/// `format!` with the `Debug` form of `str`. The outcome depends on the text alone.
#[verifier::external_body]
pub(crate) fn debug_text(s: &str) -> (r: String)
    ensures
        r@ == debug_text_of(s@),
{
    format!("{:?}", s)
}

/// Trimming takes white space off both ends and nothing else.
pub proof fn law_trim_takes_white_space_alone(s: Seq<char>) -> (ends: (int, int))
    ensures
        0 <= ends.0 <= ends.1 <= s.len(),
        trim(s) == s.subrange(ends.0, ends.1),
        forall|i: int| 0 <= i < ends.0 ==> white_space(#[trigger] s[i]),
        forall|i: int| ends.1 <= i < s.len() ==> white_space(#[trigger] s[i]),
        trim(s).len() > 0 ==> !white_space(trim(s)[0]) && !white_space(trim(s).last()),
{
    lemma_leading_space(s);
    let a = leading_space(s) as int;
    let t = trim_start(s);
    let n = lemma_trim_end_shape(t);
    assert(trim(s) =~= s.subrange(a, a + n));
    assert forall|i: int| a + n <= i < s.len() implies white_space(#[trigger] s[i]) by {
        assert(t[i - a] == s[i]);
    }
    if n > 0 {
        assert(t[0] == s[a]);
    }
    (a, a + n)
}

proof fn lemma_trim_end_shape(s: Seq<char>) -> (n: int)
    ensures
        0 <= n <= s.len(),
        trim_end(s) == s.take(n),
        forall|i: int| n <= i < s.len() ==> white_space(#[trigger] s[i]),
        n > 0 ==> !white_space(s[n - 1]),
    decreases s.len(),
{
    if s.len() > 0 && white_space(s.last()) {
        let n = lemma_trim_end_shape(s.drop_last());
        assert(s.drop_last().take(n) =~= s.take(n));
        assert forall|i: int| n <= i < s.len() implies white_space(#[trigger] s[i]) by {
            if i < s.len() - 1 {
                assert(s.drop_last()[i] == s[i]);
            }
        }
        n
    } else {
        assert(s.take(s.len() as int) =~= s);
        s.len() as int
    }
}

/// Trimming what is trimmed changes nothing.
pub proof fn law_trim_once_is_enough(s: Seq<char>)
    ensures
        trim(trim(s)) == trim(s),
        blank(s) <==> trim(s) == Seq::<char>::empty(),
{
    let ends = law_trim_takes_white_space_alone(s);
    let t = trim(s);
    let again = law_trim_takes_white_space_alone(t);
    if t.len() > 0 {
        if again.0 > 0 {
            assert(white_space(t[0]));
        }
        if again.1 < t.len() {
            assert(white_space(t[t.len() - 1]));
        }
        assert(t.subrange(0, t.len() as int) =~= t);
    } else {
        assert(trim(t) =~= t);
    }
    lemma_blank_trim(s);
    if t.len() == 0 {
        assert(t =~= Seq::<char>::empty());
    }
}

/// A word is not empty and holds no white space.
pub proof fn law_words_hold_no_space(s: Seq<char>, i: int, k: int)
    requires
        0 <= i < words(s).len(),
    ensures
        words(s)[i].len() > 0,
        0 <= k < words(s)[i].len() ==> !white_space(words(s)[i][k]),
    decreases s.len(),
{
    let t = trim_start(s);
    let n = leading_word(t) as int;
    lemma_leading_word_shape(t);
    if i == 0 {
        if 0 <= k < n {
            assert(t.take(n)[k] == t[k]);
        }
    } else {
        assert(words(s)[i] == words(t.skip(n))[i - 1]);
        law_words_hold_no_space(t.skip(n), i - 1, k);
    }
}

proof fn lemma_leading_word_shape(s: Seq<char>)
    ensures
        leading_word(s) <= s.len(),
        forall|i: int| 0 <= i < leading_word(s) ==> !white_space(#[trigger] s[i]),
        leading_word(s) < s.len() ==> white_space(s[leading_word(s) as int]),
    decreases s.len(),
{
    if s.len() > 0 && !white_space(s[0]) {
        let t = s.drop_first();
        lemma_leading_word_shape(t);
        assert forall|i: int| 0 <= i < leading_word(s) implies !white_space(#[trigger] s[i]) by {
            if i > 0 {
                assert(t[i - 1] == s[i]);
            }
        }
        if leading_word(s) < s.len() {
            assert(t[leading_word(t) as int] == s[leading_word(s) as int]);
        }
    }
}

/// A number that is written out is read back, and two numbers are written alike only where
/// they are one.
pub proof fn law_decimals_read_back(n: nat, max: nat)
    requires
        n <= max,
    ensures
        unsigned_value(decimal(n), max) == Some(n),
        all_digits(decimal(n)),
        decimal(n).len() > 0,
        n >= 10 ==> decimal(n)[0] != '0',
{
    lemma_decimal_value(n);
}

proof fn lemma_decimal_value(n: nat)
    ensures
        decimal(n).len() > 0,
        all_digits(decimal(n)),
        digits_value(decimal(n)) == n,
        n > 0 ==> decimal(n)[0] != '0',
    decreases n,
{
    if n < 10 {
        let c = digit_char(n);
        assert(decimal(n) =~= seq![c]);
        assert(c as u32 == 48 + n);
        assert(seq![c].drop_last() =~= Seq::<char>::empty());
        reveal_with_fuel(digits_value, 2);
        assert(digits_value(seq![c]) == n);
    } else {
        lemma_decimal_value(n / 10);
        let d = decimal(n / 10);
        let c = digit_char(n % 10);
        assert(c as u32 == 48 + n % 10);
        assert(d.push(c).drop_last() =~= d);
        assert(digits_value(d.push(c)) == (digits_value(d) * 10 + n % 10) as nat);
        assert(d.push(c)[0] == d[0]);
    }
}

/// Two numbers that differ are written differently.
pub proof fn law_decimals_differ(a: nat, b: nat)
    requires
        a != b,
    ensures
        decimal(a) != decimal(b),
{
    lemma_decimal_value(a);
    lemma_decimal_value(b);
}

/// Lower case changes the capital letters of ASCII alone, letter by letter, and once is
/// enough.
pub proof fn law_lower_case(s: Seq<char>)
    ensures
        lower(s).len() == s.len(),
        forall|i: int|
            0 <= i < s.len() && !('A' <= #[trigger] s[i] <= 'Z') ==> lower(s)[i] == s[i],
        forall|i: int|
            0 <= i < s.len() && 'A' <= #[trigger] s[i] <= 'Z' ==> 'a' <= lower(s)[i] <= 'z'
                && lower(s)[i] as u32 - s[i] as u32 == 'a' as u32 - 'A' as u32,
        lower(lower(s)) == lower(s),
{
    assert(lower(lower(s)) =~= lower(s));
}

/// The lines of a text hold no line break.
pub proof fn law_lines_hold_no_break(s: Seq<char>, from: int, i: int, k: int)
    requires
        0 <= from,
        0 <= i < lines_from(s, from).len(),
        0 <= k < lines_from(s, from)[i].len(),
    ensures
        lines_from(s, from)[i][k] != '\n',
    decreases s.len() - from,
{
    let e = line_end(s, from);
    lemma_line_end_shape(s, from);
    if i == 0 {
        assert(s.subrange(from, e)[k] == s[from + k]);
    } else {
        assert(lines_from(s, from)[i] == lines_from(s, e + 1)[i - 1]);
        law_lines_hold_no_break(s, e + 1, i - 1, k);
    }
}

proof fn lemma_line_end_shape(s: Seq<char>, from: int)
    requires
        0 <= from <= s.len(),
    ensures
        from <= line_end(s, from) <= s.len(),
        forall|k: int| from <= k < line_end(s, from) ==> #[trigger] s[k] != '\n',
    decreases s.len() - from,
{
    if from < s.len() && s[from] != '\n' {
        lemma_line_end_shape(s, from + 1);
    }
}

/// Joining two lists is joining each and then both.
pub proof fn law_join_splits(a: Seq<Seq<char>>, b: Seq<Seq<char>>, sep: Seq<char>)
    requires
        a.len() > 0,
        b.len() > 0,
    ensures
        join(a + b, sep) == join(a, sep) + sep + join(b, sep),
    decreases b.len(),
{
    if b.len() == 1 {
        assert((a + b).drop_last() =~= a);
    } else {
        law_join_splits(a, b.drop_last(), sep);
        assert((a + b).drop_last() =~= a + b.drop_last());
        assert((a + b).last() == b.last());
    }
    assert(join(a + b, sep) =~= join(a, sep) + sep + join(b, sep));
}

/// Replacing a character leaves the others where they are.
pub proof fn law_replacing_one_character(s: Seq<char>, from: char, to: char)
    ensures
        replaced(s, from, to).len() == s.len(),
        forall|i: int| 0 <= i < s.len() && #[trigger] s[i] != from ==> replaced(s, from, to)[i] == s[i],
        forall|i: int| 0 <= i < s.len() && #[trigger] s[i] == from ==> replaced(s, from, to)[i] == to,
        from != to ==> !replaced(s, from, to).contains(from),
{
    assert forall|i: int| 0 <= i < s.len() implies from != to ==> #[trigger] replaced(
        s,
        from,
        to,
    )[i] != from by {
        assert(s[i] == s[i]);
    }
}

/// The space, the tab, the line feed, the carriage return and the wide spaces are white space;
/// the visible characters of ASCII, the ideographs and the other control characters below the
/// tab are not.
pub proof fn law_what_white_space_is(c: char)
    ensures
        c == ' ' || c == '\t' || c == '\n' || c == '\r' || c == '\u{a0}' || c == '\u{3000}'
            ==> white_space(c),
        '!' <= c <= '~' ==> !white_space(c),
        '\u{4e00}' <= c <= '\u{9fff}' ==> !white_space(c),
        (c as u32) < 9 || 14 <= c as u32 <= 31 ==> !white_space(c),
        '\u{a1}' <= c <= '\u{1000}' ==> !white_space(c),
{
}

/// A text that begins with a word and a white space has that word first and then the words of
/// the rest; a text without white space is one word; a blank text has none.
pub proof fn law_words_come_in_order(w: Seq<char>, c: char, rest: Seq<char>)
    requires
        w.len() > 0,
        white_space(c),
        forall|i: int| 0 <= i < w.len() ==> !white_space(#[trigger] w[i]),
    ensures
        words(w + seq![c] + rest) == seq![w] + words(rest),
        words(w) == seq![w],
        words(seq![c] + rest) == words(rest),
        blank(rest) ==> words(rest).len() == 0,
{
    let s = w + seq![c] + rest;
    lemma_leading_space_is(s, 0);
    lemma_leading_word_is(s, w.len() as int);
    assert(s.skip(0) =~= s);
    assert(s.take(w.len() as int) =~= w);
    let t = seq![c] + rest;
    assert(s.skip(w.len() as int) =~= t);
    lemma_leading_space(rest);
    let n: int = leading_space(rest) as int;
    assert forall|i: int| 0 <= i < n + 1 implies white_space(#[trigger] t[i]) by {
        if i > 0 {
            assert(t[i] == rest[i - 1]);
        }
    }
    lemma_leading_space_is(t, n + 1);
    assert(t.skip(n + 1) =~= rest.skip(n));
    let u = trim_start(rest);
    assert(trim_start(t) == u);
    assert(words(t) =~= words(rest));
    lemma_leading_space_is(w, 0);
    lemma_leading_word_is(w, w.len() as int);
    assert(w.skip(0) =~= w);
    assert(w.take(w.len() as int) =~= w);
    let none = w.skip(w.len() as int);
    assert(none =~= Seq::<char>::empty());
    assert(trim_start(none).len() == 0);
    assert(words(none) =~= Seq::empty());
    assert(words(w) =~= seq![w]);
    if blank(rest) {
        lemma_leading_space_is(rest, rest.len() as int);
        assert(u.len() == 0);
    }
}

/// Characters are trimmed from the two ends alone: what is left does not begin, or end, with
/// them, and what was taken away was nothing else.
pub proof fn law_trimmed_characters(s: Seq<char>, c: char)
    ensures
        trim_char_start(seq![c] + s, c) == trim_char_start(s, c),
        trim_char_end(s.push(c), c) == trim_char_end(s, c),
        s.len() > 0 && s[0] != c ==> trim_char_start(s, c) == s,
        s.len() > 0 && s.last() != c ==> trim_char_end(s, c) == s,
        s.len() == 0 ==> trim_char_start(s, c) == s && trim_char_end(s, c) == s,
{
    assert((seq![c] + s).drop_first() =~= s);
    assert(s.push(c).drop_last() =~= s);
}

/// A text that is no number is told apart: an empty one, a number beyond the limit, and one
/// that does not begin with a digit.
pub proof fn law_why_a_text_is_no_number(s: Seq<char>, n: nat, max: nat)
    ensures
        s.len() == 0 ==> number_error(s, max) == "cannot parse integer from empty string"@,
        n > max ==> number_error(decimal(n), max) == "number too large to fit in target type"@,
        s.len() > 0 && s[0] != '+' && !('0' <= s[0] <= '9') ==> number_error(s, max)
            == "invalid digit found in string"@,
{
    lemma_decimal_value(n);
    let d = decimal(n);
    assert('0' <= d[0] <= '9');
    assert(after_plus(d) == d);
    lemma_digits_run(d, 0);
    assert(d.take(d.len() as int) =~= d);
    if s.len() > 0 && s[0] != '+' && !('0' <= s[0] <= '9') {
        assert(digits_end(s, 0) == 0);
        assert(s.take(0).len() == 0);
    }
}

proof fn lemma_digits_run(s: Seq<char>, from: int)
    requires
        0 <= from <= s.len(),
        all_digits(s),
    ensures
        digits_end(s, from) == s.len(),
    decreases s.len() - from,
{
    if from < s.len() {
        assert('0' <= s[from] <= '9');
        lemma_digits_run(s, from + 1);
    }
}

/// A line goes up to the next line feed, and the lines after it follow; without a line feed
/// the rest is the last line; a carriage return before a line feed is no part of the line.
pub proof fn law_lines_end_at_line_feeds(s: Seq<char>, from: int, e: int)
    requires
        0 <= from <= e <= s.len(),
        forall|j: int| from <= j < e ==> #[trigger] s[j] != '\n',
        e < s.len() ==> s[e] == '\n',
    ensures
        e < s.len() && (e == from || s[e - 1] != '\r') ==> lines_from(s, from) == seq![
            s.subrange(from, e),
        ] + lines_from(s, e + 1),
        e < s.len() && from < e && s[e - 1] == '\r' ==> lines_from(s, from) == seq![
            s.subrange(from, e - 1),
        ] + lines_from(s, e + 1),
        e == s.len() && from < e ==> lines_from(s, from) == seq![s.subrange(from, e)],
        from == s.len() ==> lines_from(s, from).len() == 0,
{
    lemma_line_end(s, from, e);
    if from < e {
        assert(s.subrange(from, e).last() == s[e - 1]);
        assert(s.subrange(from, e).drop_last() =~= s.subrange(from, e - 1));
    }
}

} // verus!
