//! Pages of messages and records that fit in one answer.
use vstd::prelude::*;

use crate::daemon::handlers::WEB_PAGE_MAX_LIMIT;
use crate::json;
use crate::json::{Json, JsonView};
use crate::text;

verus! {

/// The bytes that a page may take.
pub const WEB_PAGE_MAX_BYTES: usize = 3_932_160;

/// The bytes that one record of a page may take.
pub const WEB_PAGE_MAX_ITEM_BYTES: usize = 262_144;

/// The bytes that are kept free for what surrounds the records.
pub const PAGE_OVERHEAD: usize = 1024;

/// What stands at the end of a text that was cut.
pub const CUT_MARKER: &'static str = "… [已截断]";

/// The characters of the mark of a cut.
pub const CUT_MARKER_CHARS: usize = 7;

/// A text of more than `max` characters keeps its beginning and gets a mark.
pub open spec fn cut(s: Seq<char>, max: nat) -> Seq<char> {
    if s.len() <= max {
        s
    } else if max < CUT_MARKER_CHARS {
        CUT_MARKER@
    } else {
        s.take(max - CUT_MARKER_CHARS) + CUT_MARKER@
    }
}

/// The document with every text of more than `max` characters cut; keys stay.
pub open spec fn truncated(j: JsonView, max: nat) -> JsonView
    decreases j,
{
    match j {
        JsonView::Str(s) => JsonView::Str(cut(s, max)),
        JsonView::Array(v) => JsonView::Array(
            Seq::new(
                v.len(),
                |i: int|
                    if 0 <= i < v.len() {
                        truncated(v[i], max)
                    } else {
                        JsonView::Null
                    },
            ),
        ),
        JsonView::Object(f) => JsonView::Object(
            Seq::new(
                f.len(),
                |i: int|
                    if 0 <= i < f.len() {
                        (f[i].0, truncated(f[i].1, max))
                    } else {
                        (Seq::empty(), JsonView::Null)
                    },
            ),
        ),
        other => other,
    }
}

/// The bytes that a document takes as text.
pub open spec fn json_bytes(j: JsonView) -> nat {
    vstd::utf8::encode_utf8(json::json_text_of(j)).len()
}

fn byte_len(j: &Json) -> (n: usize)
    ensures
        n == json_bytes(j@),
{
    json::json_text(j).as_str().as_bytes().len()
}

fn cut_text(s: &String, max_chars: usize) -> (r: String)
    ensures
        r@ == cut(s@, max_chars as nat),
{
    let chars = text::chars_of(s.as_str());
    if chars.len() <= max_chars {
        return s.clone();
    }
    let keep: usize = max_chars.saturating_sub(CUT_MARKER_CHARS);
    let mut out = text::string_of_range(&chars, 0, keep);
    out.append(CUT_MARKER);
    proof {
        assert(chars@.subrange(0, keep as int) =~= s@.take(keep as int));
        if max_chars < CUT_MARKER_CHARS {
            assert(s@.take(0) + CUT_MARKER@ =~= CUT_MARKER@);
        }
    }
    out
}

/// Cuts every text of more than `max_chars` characters.
pub fn truncate_json_strings(value: &Json, max_chars: usize) -> (r: Json)
    ensures
        r@ == truncated(value@, max_chars as nat),
    decreases value,
{
    match value {
        Json::Str(s) => Json::Str(cut_text(s, max_chars)),
        Json::Array(v) => {
            let mut out: Vec<Json> = Vec::new();
            let mut i: usize = 0;
            while i < v.len()
                invariant
                    i <= v@.len(),
                    *value == Json::Array(*v),
                    out@.len() == i,
                    forall|k: int|
                        0 <= k < i ==> (#[trigger] out@[k])@ == truncated(
                            v@[k]@,
                            max_chars as nat,
                        ),
                decreases v@.len() - i,
            {
                proof {
                    assert(decreases_to!(*value => value->Array_0));
                    assert(decreases_to!(*v => v@));
                    assert(decreases_to!(v@ => v@[i as int]));
                }
                out.push(truncate_json_strings(&v[i], max_chars));
                i = i + 1;
            }
            proof {
                json::lemma_array_view(*v);
                assert(json::list_view(out@) =~= truncated(value@, max_chars as nat)->Array_0);
            }
            json::array(out)
        },
        Json::Object(v) => {
            let mut out: Vec<(String, Json)> = Vec::new();
            let mut i: usize = 0;
            while i < v.len()
                invariant
                    i <= v@.len(),
                    *value == Json::Object(*v),
                    out@.len() == i,
                    forall|k: int|
                        0 <= k < i ==> (#[trigger] out@[k]).0@ == v@[k].0@ && out@[k].1@
                            == truncated(v@[k].1@, max_chars as nat),
                decreases v@.len() - i,
            {
                proof {
                    assert(decreases_to!(*value => value->Object_0));
                    assert(decreases_to!(*v => v@));
                    assert(decreases_to!(v@ => v@[i as int]));
                    assert(decreases_to!(v@[i as int] => v@[i as int].1));
                }
                let item = truncate_json_strings(&v[i].1, max_chars);
                out.push((v[i].0.clone(), item));
                i = i + 1;
            }
            proof {
                json::lemma_object_view(*v);
                assert(json::fields_view(out@) =~= truncated(value@, max_chars as nat)->Object_0);
            }
            json::object(out)
        },
        _ => value.clone(),
    }
}

/// The document that stands for one that is too large.
pub open spec fn oversized_json(message: Seq<char>, bytes: nat) -> JsonView {
    JsonView::Object(
        seq![
            ("truncated"@, JsonView::Bool(true)),
            (
                "content"@,
                JsonView::Str(message + "（原始大小约 "@ + text::decimal(bytes) + " 字节）"@),
            ),
        ],
    )
}

/// The first of the ever shorter forms of a document that fits, from the form number
/// `from` on.
pub open spec fn shortened(
    j: JsonView,
    limits: Seq<usize>,
    from: int,
    max_bytes: nat,
    message: Seq<char>,
) -> JsonView
    decreases limits.len() - from,
{
    if from < 0 || from >= limits.len() {
        oversized_json(message, json_bytes(j))
    } else if json_bytes(truncated(j, limits[from] as nat)) <= max_bytes {
        truncated(j, limits[from] as nat)
    } else {
        shortened(j, limits, from + 1, max_bytes, message)
    }
}

/// How many characters each text may have, from the mildest cut to the hardest.
pub open spec fn cut_steps() -> Seq<usize> {
    seq![65_536usize, 16_384usize, 4_096usize, 1_024usize, 256usize]
}

/// The document itself where it fits, else the mildest cut that fits, else a note.
pub open spec fn compacted(j: JsonView, max_bytes: nat, message: Seq<char>) -> JsonView {
    if json_bytes(j) <= max_bytes {
        j
    } else {
        shortened(j, cut_steps(), 0, max_bytes, message)
    }
}

/// Makes a document fit, as far as cutting its texts can.
pub fn compact_json_for_web(value: Json, max_bytes: usize, message: &str) -> (r: Json)
    ensures
        r@ == compacted(value@, max_bytes as nat, message@),
{
    let original_bytes: usize = byte_len(&value);
    if original_bytes <= max_bytes {
        return value;
    }
    let steps: [usize; 5] = [65_536, 16_384, 4_096, 1_024, 256];
    assert(steps@ =~= cut_steps());
    let mut i: usize = 0;
    while i < 5
        invariant
            i <= 5,
            steps@ == cut_steps(),
            json_bytes(value@) > max_bytes,
            steps@.len() == 5,
            shortened(value@, steps@, i as int, max_bytes as nat, message@) == shortened(
                value@,
                cut_steps(),
                0,
                max_bytes as nat,
                message@,
            ),
        decreases 5 - i,
    {
        let candidate = truncate_json_strings(&value, steps[i]);
        if byte_len(&candidate) <= max_bytes {
            return candidate;
        }
        i = i + 1;
    }
    let mut content = message.to_owned();
    content.append("（原始大小约 ");
    content.append(text::decimal_text(original_bytes as u64).as_str());
    content.append(" 字节）");
    let mut f = json::no_fields();
    json::put(&mut f, "truncated", Json::Bool(true));
    json::put(&mut f, "content", Json::Str(content));
    assert(json::fields_view(f@) =~= oversized_json(
        message@,
        json_bytes(value@),
    )->Object_0);
    json::object(f)
}

/// The bytes of the first `n` records of a page, each with what separates it from the next.
pub open spec fn page_bytes(items: Seq<JsonView>, n: nat, message: Seq<char>) -> nat
    decreases n,
{
    if n == 0 || n > items.len() {
        0
    } else {
        page_bytes(items, (n - 1) as nat, message) + json_bytes(
            compacted(items[n - 1], WEB_PAGE_MAX_ITEM_BYTES as nat, message),
        ) + 1
    }
}

/// The first `n` records can stand on one page. One record always can.
pub open spec fn page_fits(items: Seq<JsonView>, n: nat, message: Seq<char>) -> bool {
    n <= 1 || PAGE_OVERHEAD + page_bytes(items, n, message) <= WEB_PAGE_MAX_BYTES
}

/// The first `n` records are the page: no more of them are asked for, or are there, or fit.
pub open spec fn is_page_end(
    items: Seq<JsonView>,
    limit: nat,
    n: nat,
    message: Seq<char>,
) -> bool {
    &&& n <= items.len()
    &&& n <= limit
    &&& page_fits(items, n, message)
    &&& n == items.len() || n == limit || !page_fits(items, (n + 1) as nat, message)
}

/// Fills one page from the record at `offset` on, and tells whether more follow.
pub fn bounded_json_page(
    items: &Vec<Json>,
    offset: usize,
    limit: usize,
    oversized_message: &str,
) -> (r: (Vec<Json>, bool))
    ensures
        ({
            let rest = if offset <= items@.len() {
                json::list_view(items@).skip(offset as int)
            } else {
                Seq::empty()
            };
            &&& is_page_end(rest, limit as nat, r.0@.len(), oversized_message@)
            &&& forall|i: int|
                0 <= i < r.0@.len() ==> (#[trigger] r.0@[i])@ == compacted(
                    rest[i],
                    WEB_PAGE_MAX_ITEM_BYTES as nat,
                    oversized_message@,
                )
            &&& r.1 == (r.0@.len() < rest.len())
        }),
{
    let mut values: Vec<Json> = Vec::new();
    if offset >= items.len() {
        return (values, false);
    }
    let ghost rest = json::list_view(items@).skip(offset as int);
    let mut used_bytes: usize = PAGE_OVERHEAD;
    let mut i: usize = 0;
    let mut full = false;
    while i < limit && i < items.len() - offset
        invariant_except_break
            !full,
        invariant
            offset < items@.len(),
            rest == json::list_view(items@).skip(offset as int),
            i <= items@.len() - offset,
            i <= limit,
            values@.len() == i,
            i > 1 ==> used_bytes <= WEB_PAGE_MAX_BYTES,
            used_bytes == usize::MAX || used_bytes == PAGE_OVERHEAD + page_bytes(
                rest,
                i as nat,
                oversized_message@,
            ),
            used_bytes == usize::MAX ==> PAGE_OVERHEAD + page_bytes(
                rest,
                i as nat,
                oversized_message@,
            ) >= usize::MAX,
            page_fits(rest, i as nat, oversized_message@),
            forall|k: int|
                0 <= k < i ==> (#[trigger] values@[k])@ == compacted(
                    rest[k],
                    WEB_PAGE_MAX_ITEM_BYTES as nat,
                    oversized_message@,
                ),
            full ==> i < items@.len() - offset && !page_fits(
                rest,
                (i + 1) as nat,
                oversized_message@,
            ),
        ensures
            full || i == limit || i == items@.len() - offset,
        decreases items@.len() - offset - i,
    {
        let value = compact_json_for_web(
            items[offset + i].clone(),
            WEB_PAGE_MAX_ITEM_BYTES,
            oversized_message,
        );
        assert(rest[i as int] == items@[offset + i]@);
        let item_bytes: usize = byte_len(&value);
        let next: usize = used_bytes.saturating_add(item_bytes).saturating_add(1);
        assert(page_bytes(rest, (i + 1) as nat, oversized_message@) == page_bytes(
            rest,
            i as nat,
            oversized_message@,
        ) + item_bytes + 1);
        if i > 0 && next > WEB_PAGE_MAX_BYTES {
            full = true;
            break;
        }
        values.push(value);
        used_bytes = next;
        i = i + 1;
    }
    let more = i < items.len() - offset;
    (values, more)
}

/// The document that stands for a record that cannot be written.
pub fn unreadable_record() -> (r: Json)
    ensures
        r@ == JsonView::Object(
            seq![
                ("truncated"@, JsonView::Bool(true)),
                ("content"@, JsonView::Str("该记录无法序列化，已隐藏"@)),
            ],
        ),
{
    let mut f = json::no_fields();
    json::put(&mut f, "truncated", Json::Bool(true));
    json::put(&mut f, "content", Json::of_str("该记录无法序列化，已隐藏"));
    assert(json::fields_view(f@) =~= seq![
        ("truncated"@, JsonView::Bool(true)),
        ("content"@, JsonView::Str("该记录无法序列化，已隐藏"@)),
    ]);
    json::object(f)
}

/// How many records a page may have, whatever was asked for.
pub open spec fn page_limit(asked: usize) -> usize {
    if asked < 1 {
        1
    } else if asked > WEB_PAGE_MAX_LIMIT {
        WEB_PAGE_MAX_LIMIT
    } else {
        asked
    }
}

/// How many records a page may have, whatever was asked for.
pub fn clamp_limit(asked: usize) -> (r: usize)
    ensures
        r == page_limit(asked),
{
    if asked < 1 {
        1
    } else if asked > WEB_PAGE_MAX_LIMIT {
        WEB_PAGE_MAX_LIMIT
    } else {
        asked
    }
}

proof fn lemma_page_bytes_grow(items: Seq<JsonView>, a: nat, b: nat, message: Seq<char>)
    requires
        a <= b <= items.len(),
    ensures
        page_bytes(items, a, message) <= page_bytes(items, b, message),
    decreases b,
{
    if a < b {
        lemma_page_bytes_grow(items, a, (b - 1) as nat, message);
    }
}

/// A page that is asked for at least one record holds one where any is left, so that
/// loading page after page comes to an end and leaves nothing out.
pub proof fn law_pages_make_progress(items: Seq<JsonView>, limit: nat, n: nat, message: Seq<char>)
    requires
        is_page_end(items, limit, n, message),
        limit >= 1,
        items.len() > 0,
    ensures
        n >= 1,
{
}

/// There is one way to end a page.
pub proof fn law_page_end_is_unique(
    items: Seq<JsonView>,
    limit: nat,
    n: nat,
    m: nat,
    message: Seq<char>,
)
    requires
        is_page_end(items, limit, n, message),
        is_page_end(items, limit, m, message),
    ensures
        n == m,
{
    if n < m {
        lemma_page_bytes_grow(items, (n + 1) as nat, m, message);
    } else if m < n {
        lemma_page_bytes_grow(items, (m + 1) as nat, n, message);
    }
}

/// A text that is cut has at most the characters that were allowed, where the mark of
/// the cut fits in them.
pub proof fn law_cut_is_short(s: Seq<char>, max: nat)
    requires
        max >= CUT_MARKER_CHARS,
    ensures
        cut(s, max).len() <= max,
{
    reveal_strlit("… [已截断]");
}

/// Reading back: the document that stands for one that is too large, field by field.
pub proof fn law_oversized_reads_back(message: Seq<char>, bytes: nat)
    ensures
        json::at_key(oversized_json(message, bytes), "truncated"@) == JsonView::Bool(true),
        json::at_key(oversized_json(message, bytes), "content"@)
            == JsonView::Str(message + "（原始大小约 "@ + text::decimal(bytes) + " 字节）"@),
{
    reveal_strlit("content");
    reveal_strlit("truncated");
    assert("truncated"@.len() != "content"@.len());
    json::lemma_field_at(oversized_json(message, bytes), "truncated"@, 0);
    json::lemma_field_at(oversized_json(message, bytes), "content"@, 1);
}

/// A text that is short enough stays; a longer one keeps its start and ends with the mark
/// that it was cut.
pub proof fn law_cut_keeps_the_start(s: Seq<char>, max: nat)
    ensures
        s.len() <= max ==> cut(s, max) == s,
        s.len() > max ==> CUT_MARKER@.is_suffix_of(cut(s, max)),
        s.len() > max && max >= CUT_MARKER_CHARS ==> s.take(max - CUT_MARKER_CHARS).is_prefix_of(
            cut(s, max),
        ),
{
    if s.len() > max {
        let t = cut(s, max);
        assert(t.subrange(t.len() - CUT_MARKER@.len(), t.len() as int) =~= CUT_MARKER@);
    }
}

/// Shortening a document cuts its texts and nothing else: numbers, keys, and the number and
/// order of items stay.
pub proof fn law_shortening_cuts_texts_alone(j: JsonView, max: nat)
    ensures
        j matches JsonView::Str(s) ==> truncated(j, max) == JsonView::Str(cut(s, max)),
        j matches JsonView::Array(v) ==> (truncated(j, max) matches JsonView::Array(w) && w.len()
            == v.len() && forall|i: int|
            0 <= i < v.len() ==> #[trigger] w[i] == truncated(v[i], max)),
        j matches JsonView::Object(f) ==> (truncated(j, max) matches JsonView::Object(g) && g.len()
            == f.len() && forall|i: int|
            0 <= i < f.len() ==> (#[trigger] g[i]).0 == f[i].0 && g[i].1 == truncated(f[i].1, max)),
        !(j is Str) && !(j is Array) && !(j is Object) ==> truncated(j, max) == j,
{
}

/// A document that fits stays whole; else it is the longest shortening that fits, or the
/// document that says it was too large.
pub proof fn law_documents_are_made_to_fit(j: JsonView, max_bytes: nat, message: Seq<char>)
    ensures
        json_bytes(j) <= max_bytes ==> compacted(j, max_bytes, message) == j,
        json_bytes(j) > max_bytes ==> json_bytes(compacted(j, max_bytes, message)) <= max_bytes
            || compacted(j, max_bytes, message) == oversized_json(message, json_bytes(j)),
        json_bytes(j) > max_bytes && json_bytes(truncated(j, 65_536)) <= max_bytes ==> compacted(
            j,
            max_bytes,
            message,
        ) == truncated(j, 65_536),
        json_bytes(j) > max_bytes && compacted(j, max_bytes, message) == oversized_json(
            message,
            json_bytes(j),
        ) || json_bytes(compacted(j, max_bytes, message)) <= max_bytes,
{
    lemma_shortened(j, cut_steps(), 0, max_bytes, message);
}

proof fn lemma_shortened(
    j: JsonView,
    limits: Seq<usize>,
    from: int,
    max_bytes: nat,
    message: Seq<char>,
)
    requires
        0 <= from,
    ensures
        json_bytes(shortened(j, limits, from, max_bytes, message)) <= max_bytes || shortened(
            j,
            limits,
            from,
            max_bytes,
            message,
        ) == oversized_json(message, json_bytes(j)),
    decreases limits.len() - from,
{
    if from < limits.len() && json_bytes(truncated(j, limits[from] as nat)) > max_bytes {
        lemma_shortened(j, limits, from + 1, max_bytes, message);
    }
}

/// A page holds at least one item, at most as many as the service allows, and within that as
/// many as were asked for.
pub proof fn law_page_limits(asked: usize)
    ensures
        1 <= page_limit(asked) <= WEB_PAGE_MAX_LIMIT,
        1 <= asked <= WEB_PAGE_MAX_LIMIT ==> page_limit(asked) == asked,
        asked > WEB_PAGE_MAX_LIMIT ==> page_limit(asked) == WEB_PAGE_MAX_LIMIT,
        asked == 0 ==> page_limit(asked) == 1,
{
}

/// A page of more than one item stays within its size; it ends early only where one item more
/// would not.
pub proof fn law_pages_stay_within_their_size(
    items: Seq<JsonView>,
    limit: nat,
    n: nat,
    message: Seq<char>,
)
    requires
        is_page_end(items, limit, n, message),
    ensures
        n > 1 ==> PAGE_OVERHEAD + page_bytes(items, n, message) <= WEB_PAGE_MAX_BYTES,
        n <= limit && n <= items.len(),
        n < limit && n < items.len() ==> n >= 1 && PAGE_OVERHEAD + page_bytes(
            items,
            (n + 1) as nat,
            message,
        ) > WEB_PAGE_MAX_BYTES,
{
}

} // verus!
