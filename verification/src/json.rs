//! JSON documents as plain data, and the calls that turn them into text and back.
use vstd::prelude::*;

use crate::text;

verus! {

/// A JSON document. A number that is no integer of 64 bits is held as the text that
/// `serde_json` writes for it.
#[derive(Debug)]
pub enum Json {
    Null,
    Bool(bool),
    Unsigned(u64),
    Negative(i64),
    Float(String),
    Str(String),
    Array(Vec<Json>),
    Object(Vec<(String, Json)>),
}

/// What a JSON document says.
pub enum JsonView {
    Null,
    Bool(bool),
    Int(int),
    Float(Seq<char>),
    Str(Seq<char>),
    Array(Seq<JsonView>),
    Object(Seq<(Seq<char>, JsonView)>),
}

/// What a document says.
pub open spec fn json_view(j: Json) -> JsonView
    decreases j,
{
    match j {
        Json::Null => JsonView::Null,
        Json::Bool(b) => JsonView::Bool(b),
        Json::Unsigned(n) => JsonView::Int(n as int),
        Json::Negative(n) => JsonView::Int(n as int),
        Json::Float(s) => JsonView::Float(s@),
        Json::Str(s) => JsonView::Str(s@),
        Json::Array(v) => JsonView::Array(
            Seq::new(
                v@.len(),
                |i: int|
                    if 0 <= i < v@.len() {
                        json_view(v@[i])
                    } else {
                        JsonView::Null
                    },
            ),
        ),
        Json::Object(v) => JsonView::Object(
            Seq::new(
                v@.len(),
                |i: int|
                    if 0 <= i < v@.len() {
                        (v@[i].0@, json_view(v@[i].1))
                    } else {
                        (Seq::empty(), JsonView::Null)
                    },
            ),
        ),
    }
}

impl View for Json {
    type V = JsonView;

    open spec fn view(&self) -> JsonView {
        json_view(*self)
    }
}

/// What a list of documents says.
pub open spec fn list_view(v: Seq<Json>) -> Seq<JsonView> {
    Seq::new(v.len(), |i: int| v[i]@)
}

/// What a list of fields says.
pub open spec fn fields_view(v: Seq<(String, Json)>) -> Seq<(Seq<char>, JsonView)> {
    Seq::new(v.len(), |i: int| (v[i].0@, v[i].1@))
}

/// An array says what its elements say.
pub proof fn lemma_array_view(v: Vec<Json>)
    ensures
        Json::Array(v)@ == JsonView::Array(list_view(v@)),
{
    assert(Json::Array(v)@->Array_0 =~= list_view(v@));
}

/// An object says what its fields say.
pub proof fn lemma_object_view(v: Vec<(String, Json)>)
    ensures
        Json::Object(v)@ == JsonView::Object(fields_view(v@)),
{
    assert(Json::Object(v)@->Object_0 =~= fields_view(v@));
}

impl Clone for Json {
    fn clone(&self) -> (r: Self)
        ensures
            r@ == self@,
        decreases self,
    {
        match self {
            Json::Null => Json::Null,
            Json::Bool(b) => Json::Bool(*b),
            Json::Unsigned(n) => Json::Unsigned(*n),
            Json::Negative(n) => Json::Negative(*n),
            Json::Float(s) => Json::Float(s.clone()),
            Json::Str(s) => Json::Str(s.clone()),
            Json::Array(v) => {
                let mut out: Vec<Json> = Vec::new();
                let mut i: usize = 0;
                while i < v.len()
                    invariant
                        i <= v@.len(),
                        *self == Json::Array(*v),
                        list_view(out@) == list_view(v@).take(i as int),
                    decreases v@.len() - i,
                {
                    proof {
                        assert(decreases_to!(*self => self->Array_0));
                        assert(decreases_to!(*v => v@));
                        assert(decreases_to!(v@ => v@[i as int]));
                    }
                    let item = v[i].clone();
                    let ghost before = list_view(out@);
                    out.push(item);
                    assert(list_view(out@) =~= before.push(item@));
                    i = i + 1;
                }
                proof {
                    assert(list_view(v@).take(i as int) =~= list_view(v@));
                    lemma_array_view(*v);
                    lemma_array_view(out);
                }
                Json::Array(out)
            },
            Json::Object(v) => {
                let mut out: Vec<(String, Json)> = Vec::new();
                let mut i: usize = 0;
                while i < v.len()
                    invariant
                        i <= v@.len(),
                        *self == Json::Object(*v),
                        fields_view(out@) == fields_view(v@).take(i as int),
                    decreases v@.len() - i,
                {
                    let key = v[i].0.clone();
                    proof {
                        assert(decreases_to!(*self => self->Object_0));
                        assert(decreases_to!(*v => v@));
                        assert(decreases_to!(v@ => v@[i as int]));
                        assert(decreases_to!(v@[i as int] => v@[i as int].1));
                    }
                    let item = v[i].1.clone();
                    let ghost before = fields_view(out@);
                    out.push((key, item));
                    assert(fields_view(out@) =~= before.push((key@, item@)));
                    i = i + 1;
                }
                proof {
                    assert(fields_view(v@).take(i as int) =~= fields_view(v@));
                    lemma_object_view(*v);
                    lemma_object_view(out);
                }
                Json::Object(out)
            },
        }
    }
}

/// Position of the first field named `key` at or after `from`, or the number of fields.
pub open spec fn key_index(fields: Seq<(Seq<char>, JsonView)>, key: Seq<char>, from: int) -> int
    decreases fields.len() - from,
{
    if from < 0 || from >= fields.len() {
        fields.len() as int
    } else if fields[from].0 == key {
        from
    } else {
        key_index(fields, key, from + 1)
    }
}

/// The value of the field `key` of an object.
pub open spec fn field(j: JsonView, key: Seq<char>) -> Option<JsonView> {
    match j {
        JsonView::Object(fields) => {
            let at = key_index(fields, key, 0);
            if 0 <= at < fields.len() {
                Some(fields[at].1)
            } else {
                None
            }
        },
        _ => None,
    }
}

/// The value of the field `key`, null where there is none.
pub open spec fn at_key(j: JsonView, key: Seq<char>) -> JsonView {
    match field(j, key) {
        Some(v) => v,
        None => JsonView::Null,
    }
}

/// The text of a JSON string.
pub open spec fn str_of(j: JsonView) -> Option<Seq<char>> {
    match j {
        JsonView::Str(s) => Some(s),
        _ => None,
    }
}

/// The value of a JSON boolean.
pub open spec fn bool_of(j: JsonView) -> Option<bool> {
    match j {
        JsonView::Bool(b) => Some(b),
        _ => None,
    }
}

/// The value of a JSON integer that fits in 64 bits without sign.
pub open spec fn u64_of(j: JsonView) -> Option<u64> {
    match j {
        JsonView::Int(n) => if 0 <= n <= u64::MAX {
            Some(n as u64)
        } else {
            None
        },
        _ => None,
    }
}

/// The view of an optional text.
pub open spec fn opt_view(s: Option<&str>) -> Option<Seq<char>> {
    match s {
        Some(t) => Some(t@),
        None => None,
    }
}

/// The view of an optional owned text.
pub open spec fn opt_text(s: Option<String>) -> Option<Seq<char>> {
    match s {
        Some(t) => Some(t@),
        None => None,
    }
}

impl Json {
    /// The field `key` of an object.
    pub fn get(&self, key: &str) -> (r: Option<&Json>)
        ensures
            match r {
                Some(v) => field(self@, key@) == Some(v@),
                None => field(self@, key@) is None,
            },
    {
        match self {
            Json::Object(v) => {
                proof {
                    lemma_object_view(*v);
                }
                let ghost fields = fields_view(v@);
                let mut i: usize = 0;
                while i < v.len()
                    invariant
                        i <= v@.len(),
                        fields == fields_view(v@),
                        self@ == JsonView::Object(fields),
                        key_index(fields, key@, 0) == key_index(fields, key@, i as int),
                    decreases v@.len() - i,
                {
                    if text::same(v[i].0.as_str(), key) {
                        return Some(&v[i].1);
                    }
                    i = i + 1;
                }
                None
            },
            _ => None,
        }
    }

    /// The text of a JSON string.
    pub fn as_str(&self) -> (r: Option<&str>)
        ensures
            opt_view(r) == str_of(self@),
    {
        match self {
            Json::Str(s) => Some(s.as_str()),
            _ => None,
        }
    }

    /// The value of a JSON boolean.
    pub fn as_bool(&self) -> (r: Option<bool>)
        ensures
            r == bool_of(self@),
    {
        match self {
            Json::Bool(b) => Some(*b),
            _ => None,
        }
    }

    /// The value of a JSON integer that fits in 64 bits without sign.
    pub fn as_u64(&self) -> (r: Option<u64>)
        ensures
            r == u64_of(self@),
    {
        match self {
            Json::Unsigned(n) => Some(*n),
            Json::Negative(n) => if *n >= 0 {
                Some(*n as u64)
            } else {
                None
            },
            _ => None,
        }
    }

    /// The text of the field `key`.
    pub fn str_at(&self, key: &str) -> (r: Option<&str>)
        ensures
            opt_view(r) == str_of(at_key(self@, key@)),
    {
        match self.get(key) {
            Some(v) => v.as_str(),
            None => None,
        }
    }

    /// The boolean of the field `key`.
    pub fn bool_at(&self, key: &str) -> (r: Option<bool>)
        ensures
            r == bool_of(at_key(self@, key@)),
    {
        match self.get(key) {
            Some(v) => v.as_bool(),
            None => None,
        }
    }

    /// The unsigned integer of the field `key`.
    pub fn u64_at(&self, key: &str) -> (r: Option<u64>)
        ensures
            r == u64_of(at_key(self@, key@)),
    {
        match self.get(key) {
            Some(v) => v.as_u64(),
            None => None,
        }
    }

    /// A JSON string with the given text.
    pub fn of_str(s: &str) -> (r: Json)
        ensures
            r@ == JsonView::Str(s@),
    {
        Json::Str(s.to_owned())
    }
}

/// An object without fields yet.
pub fn no_fields() -> (r: Vec<(String, Json)>)
    ensures
        fields_view(r@) == Seq::<(Seq<char>, JsonView)>::empty(),
{
    let r: Vec<(String, Json)> = Vec::new();
    assert(fields_view(r@) =~= Seq::<(Seq<char>, JsonView)>::empty());
    r
}

/// Adds a field at the end.
pub fn put(fields: &mut Vec<(String, Json)>, key: &str, value: Json)
    ensures
        fields_view(final(fields)@) == fields_view(old(fields)@).push((key@, value@)),
{
    let ghost before = fields@;
    fields.push((key.to_owned(), value));
    assert(fields_view(fields@) =~= fields_view(before).push((key@, value@)));
}

/// The fields with `key` set: its first field gets the value, or a new one at the end.
pub open spec fn with_field(
    fields: Seq<(Seq<char>, JsonView)>,
    key: Seq<char>,
    value: JsonView,
) -> Seq<(Seq<char>, JsonView)> {
    let at = key_index(fields, key, 0);
    if 0 <= at < fields.len() {
        fields.update(at, (key, value))
    } else {
        fields.push((key, value))
    }
}

/// Sets the field `key` of an object; what is no object stays.
pub fn set_field(j: Json, key: &str, value: Json) -> (r: Json)
    ensures
        r@ == (match j@ {
            JsonView::Object(fields) => JsonView::Object(with_field(fields, key@, value@)),
            other => other,
        }),
{
    match j {
        Json::Object(v) => {
            proof {
                lemma_object_view(v);
            }
            let mut v = v;
            let ghost fields = fields_view(v@);
            let mut i: usize = 0;
            while i < v.len()
                invariant
                    i <= v@.len(),
                    fields == fields_view(v@),
                    j@ == JsonView::Object(fields),
                    key_index(fields, key@, 0) == key_index(fields, key@, i as int),
                decreases v@.len() - i,
            {
                if text::same(v[i].0.as_str(), key) {
                    v.set(i, (key.to_owned(), value));
                    assert(fields_view(v@) =~= fields.update(i as int, (key@, value@)));
                    return object(v);
                }
                i = i + 1;
            }
            put(&mut v, key, value);
            object(v)
        },
        other => other,
    }
}

/// The object with the given fields.
pub fn object(fields: Vec<(String, Json)>) -> (r: Json)
    ensures
        r@ == JsonView::Object(fields_view(fields@)),
{
    proof {
        lemma_object_view(fields);
    }
    Json::Object(fields)
}

/// The array with the given elements.
pub fn array(items: Vec<Json>) -> (r: Json)
    ensures
        r@ == JsonView::Array(list_view(items@)),
{
    proof {
        lemma_array_view(items);
    }
    Json::Array(items)
}

/// The array without elements.
pub fn empty_array() -> (r: Json)
    ensures
        r@ == JsonView::Array(Seq::empty()),
{
    let items: Vec<Json> = Vec::new();
    assert(list_view(items@) =~= Seq::<JsonView>::empty());
    array(items)
}

/// `serde_json::Value`, which only passes between the conversions below.
#[verifier::external_type_specification]
#[verifier::external_body]
pub struct ExJsonValue(serde_json::Value);

/// What `serde_json` writes for a document, in compact form.
pub uninterp spec fn json_text_of(j: JsonView) -> Seq<char>;

/// What `serde_json` reads from bytes: a document, or the text of its error.
pub uninterp spec fn json_parse_of(bytes: Seq<u8>) -> Result<JsonView, Seq<char>>;

/// Bytes that read as the document `j`.
pub open spec fn read_ok(j: JsonView) -> Result<JsonView, Seq<char>> {
    Ok(j)
}

/// Bytes that are no document, with the message `e`.
pub open spec fn read_err(e: Seq<char>) -> Result<JsonView, Seq<char>> {
    Err(e)
}

/// Nesting that `serde_json` accepts when it reads.
pub const MAX_JSON_DEPTH: u64 = 127;

/// The key that `serde_json` keeps for itself under its feature `raw_value`, which the crate
/// `agent-client-protocol` turns on: an object that begins with it is read as what its text
/// holds.
pub open spec fn private_key(key: Seq<char>) -> bool {
    key == "$serde_json::private::RawValue"@
}

/// Documents that come back from their text unchanged: integers of 64 bits, no
/// other numbers, nesting of at most `depth`, and objects whose keys differ and
/// that do not begin with the key that `serde_json` keeps for itself.
pub open spec fn portable(j: JsonView, depth: nat) -> bool
    decreases j,
{
    match j {
        JsonView::Null => true,
        JsonView::Bool(_) => true,
        JsonView::Int(n) => i64::MIN <= n <= u64::MAX,
        JsonView::Float(_) => false,
        JsonView::Str(_) => true,
        JsonView::Array(v) => depth > 0 && forall|i: int|
            0 <= i < v.len() ==> portable(#[trigger] v[i], (depth - 1) as nat),
        JsonView::Object(f) => {
            &&& depth > 0
            &&& forall|i: int, k: int|
                0 <= i < k < f.len() ==> (#[trigger] f[i]).0 != (#[trigger] f[k]).0
            &&& f.len() > 0 ==> !private_key(f[0].0)
            &&& forall|i: int|
                0 <= i < f.len() ==> portable((#[trigger] f[i]).1, (depth - 1) as nat)
        },
    }
}

/// Rebuilds a document as a `serde_json::Value`, one node for one node. Nothing
/// is claimed of the result: only `serde_json` looks inside it.
#[verifier::external_body]
fn to_value(j: &Json) -> serde_json::Value {
    match j {
        Json::Null => serde_json::Value::Null,
        Json::Bool(b) => serde_json::Value::Bool(*b),
        Json::Unsigned(n) => serde_json::Value::from(*n),
        Json::Negative(n) => serde_json::Value::from(*n),
        Json::Float(s) => s.parse::<serde_json::Number>().map_or(
            serde_json::Value::Null,
            serde_json::Value::Number,
        ),
        Json::Str(s) => serde_json::Value::String(s.clone()),
        Json::Array(v) => serde_json::Value::Array(v.iter().map(to_value).collect()),
        Json::Object(v) => serde_json::Value::Object(
            v.iter().map(|f| (f.0.clone(), to_value(&f.1))).collect(),
        ),
    }
}

/// Rebuilds a `serde_json::Value` as a document, one node for one node. Nothing
/// is claimed of the result here; `parse_json` names it.
#[verifier::external_body]
fn from_value(v: serde_json::Value) -> Json {
    match v {
        serde_json::Value::Null => Json::Null,
        serde_json::Value::Bool(b) => Json::Bool(b),
        serde_json::Value::Number(n) => match (n.as_u64(), n.as_i64()) {
            (Some(u), _) => Json::Unsigned(u),
            (None, Some(i)) => Json::Negative(i),
            (None, None) => Json::Float(n.to_string()),
        },
        serde_json::Value::String(s) => Json::Str(s),
        serde_json::Value::Array(a) => Json::Array(a.into_iter().map(from_value).collect()),
        serde_json::Value::Object(o) => Json::Object(
            o.into_iter().map(|f| (f.0, from_value(f.1))).collect(),
        ),
    }
}

/// `serde_json::to_string` on a document. Its text depends on what the document
/// says alone; it holds no line feed, because compact output puts none between
/// tokens and escapes those inside strings; and a portable document is read
/// back from its own text as it was, also where a line feed follows the text:
/// the feature `preserve_order` keeps the fields of an object in their order.
#[verifier::external_body]
pub(crate) fn json_text(j: &Json) -> (r: String)
    ensures
        r@ == json_text_of(j@),
        !r@.contains('\n'),
        portable(j@, MAX_JSON_DEPTH as nat) ==> json_parse_of(vstd::utf8::encode_utf8(r@))
            == read_ok(j@),
        portable(j@, MAX_JSON_DEPTH as nat) ==> json_parse_of(
            vstd::utf8::encode_utf8(r@).push(10u8),
        ) == read_ok(j@),
{
    serde_json::to_string(&to_value(j)).unwrap_or_default()
}

/// `serde_json::from_slice` into a `serde_json::Value`, rebuilt as a document.
/// The outcome depends on the bytes alone; an error is given by its message.
#[verifier::external_body]
pub(crate) fn parse_json(bytes: &[u8]) -> (r: Result<Json, String>)
    ensures
        r is Ok ==> json_parse_of(bytes@) == read_ok(r->Ok_0@),
        r is Err ==> json_parse_of(bytes@) == read_err(r->Err_0@),
{
    match serde_json::from_slice::<serde_json::Value>(bytes) {
        Ok(v) => Ok(from_value(v)),
        Err(e) => Err(e.to_string()),
    }
}

/// A field is read where its key first stands.
pub proof fn lemma_field_at(j: JsonView, key: Seq<char>, at: int)
    requires
        j is Object,
        0 <= at < j->Object_0.len(),
        j->Object_0[at].0 == key,
        forall|k: int| 0 <= k < at ==> (#[trigger] j->Object_0[k]).0 != key,
    ensures
        field(j, key) == Some(j->Object_0[at].1),
        at_key(j, key) == j->Object_0[at].1,
{
    lemma_key_index(j->Object_0, key, 0, at);
}

/// A key that stands nowhere reads as nothing.
pub proof fn lemma_no_field(j: JsonView, key: Seq<char>)
    requires
        j is Object,
        forall|k: int| 0 <= k < j->Object_0.len() ==> (#[trigger] j->Object_0[k]).0 != key,
    ensures
        field(j, key) is None,
        at_key(j, key) is Null,
{
    lemma_key_index(j->Object_0, key, 0, j->Object_0.len() as int);
}

/// The first place of a key is found.
pub proof fn lemma_key_index(f: Seq<(Seq<char>, JsonView)>, key: Seq<char>, from: int, at: int)
    requires
        0 <= from <= at <= f.len(),
        at < f.len() ==> f[at].0 == key,
        forall|k: int| from <= k < at ==> (#[trigger] f[k]).0 != key,
    ensures
        key_index(f, key, from) == at,
    decreases at - from,
{
    if from < at {
        lemma_key_index(f, key, from + 1, at);
    }
}

/// Setting a field of an object gives it the value and leaves every other field as it was.
pub proof fn law_setting_a_field(
    fields: Seq<(Seq<char>, JsonView)>,
    key: Seq<char>,
    value: JsonView,
    other: Seq<char>,
)
    ensures
        field(JsonView::Object(with_field(fields, key, value)), key) == Some(value),
        other != key ==> field(JsonView::Object(with_field(fields, key, value)), other) == field(
            JsonView::Object(fields),
            other,
        ),
{
    let after = with_field(fields, key, value);
    lemma_key_place(fields, key, 0);
    let at = key_index(fields, key, 0);
    lemma_field_at(JsonView::Object(after), key, at);
    if other != key {
        lemma_key_place(fields, other, 0);
        let k = key_index(fields, other, 0);
        if k < fields.len() {
            lemma_field_at(JsonView::Object(after), other, k);
        } else {
            lemma_no_field(JsonView::Object(after), other);
        }
    }
}

proof fn lemma_key_place(fields: Seq<(Seq<char>, JsonView)>, key: Seq<char>, from: int)
    requires
        0 <= from <= fields.len(),
    ensures
        from <= key_index(fields, key, from) <= fields.len(),
        key_index(fields, key, from) < fields.len() ==> fields[key_index(fields, key, from)].0
            == key,
        forall|k: int|
            from <= k < key_index(fields, key, from) ==> (#[trigger] fields[k]).0 != key,
    decreases fields.len() - from,
{
    if from < fields.len() && fields[from].0 != key {
        lemma_key_place(fields, key, from + 1);
    }
}

/// A field is found exactly where its key stands, with the value that first stands under it.
pub proof fn law_fields_are_found_by_key(fields: Seq<(Seq<char>, JsonView)>, key: Seq<char>)
    ensures
        field(JsonView::Object(fields), key) is None <==> forall|k: int|
            0 <= k < fields.len() ==> (#[trigger] fields[k]).0 != key,
        forall|k: int|
            0 <= k < fields.len() && (#[trigger] fields[k]).0 == key && (forall|j: int|
                0 <= j < k ==> (#[trigger] fields[j]).0 != key) ==> field(
                JsonView::Object(fields),
                key,
            ) == Some(fields[k].1),
{
    lemma_key_place(fields, key, 0);
}

/// What comes back from its text unchanged: nothing, truth values, texts and integers of 64
/// bits at any depth, and lists of such where there is depth for them; other numbers do not,
/// nor do two fields of one name.
pub proof fn law_what_comes_back_unchanged(
    depth: nat,
    b: bool,
    n: int,
    s: Seq<char>,
    v: Seq<JsonView>,
    key: Seq<char>,
    i: int,
)
    requires
        0 <= i < v.len(),
    ensures
        portable(JsonView::Null, depth),
        portable(JsonView::Bool(b), depth),
        portable(JsonView::Str(s), depth),
        portable(JsonView::Int(n), depth) <==> -0x8000_0000_0000_0000 <= n
            <= 0xffff_ffff_ffff_ffff,
        !portable(JsonView::Float(s), depth),
        (forall|k: int| 0 <= k < v.len() ==> portable(#[trigger] v[k], depth)) ==> portable(
            JsonView::Array(v),
            depth + 1,
        ),
        !portable(JsonView::Array(v), 0),
        portable(v[i], depth) && !private_key(key) ==> portable(
            JsonView::Object(seq![(key, v[i])]),
            depth + 1,
        ),
        !portable(
            JsonView::Object(seq![(key, JsonView::Null), (key, JsonView::Null)]),
            depth + 1,
        ),
        private_key(key) <==> key == "$serde_json::private::RawValue"@,
{
    let two = seq![(key, JsonView::Null), (key, JsonView::Null)];
    assert(two[0].0 == two[1].0);
    reveal_with_fuel(portable, 2);
}

} // verus!
