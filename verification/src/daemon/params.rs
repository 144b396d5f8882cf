//! Reading the parameters of a request.
use vstd::prelude::*;

use crate::daemon::protocol;
use crate::daemon::protocol::{RequestId, RequestIdView};
use crate::json;
use crate::json::{Json, JsonView};

verus! {

/// Names as texts.
pub open spec fn name_views(names: Seq<&'static str>) -> Seq<Seq<char>> {
    Seq::new(names.len(), |i: int| names[i]@)
}

/// Parameters by their names. An array gives them in the order of the names; those after the
/// first `least` may be missing at its end.
pub open spec fn named(p: JsonView, names: Seq<Seq<char>>, least: nat) -> JsonView {
    match p {
        JsonView::Array(v) => if least <= v.len() <= names.len() {
            JsonView::Object(Seq::new(v.len(), |i: int| (names[i], v[i])))
        } else {
            p
        },
        _ => p,
    }
}

/// Puts parameters that are given in an array under their names.
pub fn arrange(p: &Json, names: &[&'static str], least: usize) -> (r: Json)
    ensures
        r@ == named(p@, name_views(names@), least as nat),
{
    if let Json::Array(v) = p {
        proof {
            json::lemma_array_view(*v);
        }
        if least <= v.len() && v.len() <= names.len() {
            let ghost all = json::list_view(v@);
            let ghost keys = name_views(names@);
            let mut f: Vec<(String, Json)> = Vec::new();
            let mut i: usize = 0;
            while i < v.len()
                invariant
                    i <= v@.len() <= names@.len(),
                    all == json::list_view(v@),
                    keys == name_views(names@),
                    f@.len() == i,
                    forall|k: int|
                        0 <= k < i ==> (#[trigger] f@[k]).0@ == keys[k] && f@[k].1@ == all[k],
                decreases v@.len() - i,
            {
                f.push((names[i].to_owned(), v[i].clone()));
                i = i + 1;
            }
            proof {
                json::lemma_object_view(f);
                assert(json::fields_view(f@) =~= Seq::new(all.len(), |i: int| (keys[i], all[i])));
            }
            return Json::Object(f);
        }
    }
    p.clone()
}

/// A text that must be there.
pub open spec fn need_str(j: JsonView, key: Seq<char>) -> Option<Seq<char>> {
    match json::field(j, key) {
        Some(JsonView::Str(s)) => Some(s),
        _ => None,
    }
}

/// A choice that must be there: its name, or an object whose only key it is, over null.
pub open spec fn need_word(j: JsonView, key: Seq<char>) -> Option<Seq<char>> {
    match json::field(j, key) {
        Some(JsonView::Str(s)) => Some(s),
        Some(JsonView::Object(f)) => if f.len() == 1 && f[0].1 is Null {
            Some(f[0].0)
        } else {
            None
        },
        _ => None,
    }
}

/// A text that may be missing or null; the outer option is none where it is something else.
pub open spec fn may_str(j: JsonView, key: Seq<char>) -> Option<Option<Seq<char>>> {
    match json::field(j, key) {
        None => Some(None),
        Some(JsonView::Null) => Some(None),
        Some(JsonView::Str(s)) => Some(Some(s)),
        _ => None,
    }
}

/// A truth value that may be missing or null.
pub open spec fn may_bool(j: JsonView, key: Seq<char>) -> Option<Option<bool>> {
    match json::field(j, key) {
        None => Some(None),
        Some(JsonView::Null) => Some(None),
        Some(JsonView::Bool(b)) => Some(Some(b)),
        _ => None,
    }
}

/// A truth value that is false where it is missing.
pub open spec fn bool_or_false(j: JsonView, key: Seq<char>) -> Option<bool> {
    match json::field(j, key) {
        None => Some(false),
        Some(JsonView::Bool(b)) => Some(b),
        _ => None,
    }
}

/// A number without sign that may be missing or null.
pub open spec fn may_u64(j: JsonView, key: Seq<char>) -> Option<Option<u64>> {
    match json::field(j, key) {
        None => Some(None),
        Some(JsonView::Null) => Some(None),
        Some(v) => match json::u64_of(v) {
            Some(n) => Some(Some(n)),
            None => None,
        },
    }
}

/// A number without sign that must be there.
pub open spec fn need_u64(j: JsonView, key: Seq<char>) -> Option<u64> {
    match json::field(j, key) {
        Some(v) => json::u64_of(v),
        None => None,
    }
}

/// A number without sign that has a default where it is missing.
pub open spec fn u64_or(j: JsonView, key: Seq<char>, default: u64) -> Option<u64> {
    match json::field(j, key) {
        None => Some(default),
        Some(v) => json::u64_of(v),
    }
}

/// A number with sign that may be missing or null.
pub open spec fn may_i64(j: JsonView, key: Seq<char>) -> Option<Option<i64>> {
    match json::field(j, key) {
        None => Some(None),
        Some(JsonView::Null) => Some(None),
        Some(JsonView::Int(n)) => if i64::MIN <= n <= i64::MAX {
            Some(Some(n as i64))
        } else {
            None
        },
        _ => None,
    }
}

/// A request identifier that may be missing or null.
pub open spec fn may_id(j: JsonView, key: Seq<char>) -> Option<Option<RequestIdView>> {
    match json::field(j, key) {
        None => Some(None),
        Some(JsonView::Null) => Some(None),
        Some(v) => match protocol::json_id(v) {
            Some(id) => Some(Some(id)),
            None => None,
        },
    }
}

/// A request identifier that must be there.
pub open spec fn need_id(j: JsonView, key: Seq<char>) -> Option<RequestIdView> {
    match json::field(j, key) {
        Some(v) => protocol::json_id(v),
        None => None,
    }
}

/// The view of an optional request identifier.
pub open spec fn opt_id(id: Option<RequestId>) -> Option<RequestIdView> {
    match id {
        Some(i) => Some(i@),
        None => None,
    }
}

/// Reads a text that must be there.
pub fn read_str(j: &Json, key: &str) -> (r: Option<String>)
    ensures
        json::opt_text(r) == need_str(j@, key@),
{
    match j.get(key) {
        Some(Json::Str(s)) => Some(s.clone()),
        _ => None,
    }
}

/// Reads a choice that must be there.
pub fn read_word(j: &Json, key: &str) -> (r: Option<String>)
    ensures
        json::opt_text(r) == need_word(j@, key@),
{
    match j.get(key) {
        Some(Json::Str(s)) => Some(s.clone()),
        Some(Json::Object(f)) => {
            proof {
                json::lemma_object_view(*f);
            }
            if f.len() != 1 {
                return None;
            }
            assert(json::fields_view(f@)[0] == (f@[0].0@, f@[0].1@));
            match &f[0].1 {
                Json::Null => Some(f[0].0.clone()),
                _ => None,
            }
        },
        _ => None,
    }
}

/// Reads a text that may be missing or null.
pub fn read_opt_str(j: &Json, key: &str) -> (r: Option<Option<String>>)
    ensures
        match r {
            Some(s) => may_str(j@, key@) == Some(json::opt_text(s)),
            None => may_str(j@, key@) is None,
        },
{
    match j.get(key) {
        None => Some(None),
        Some(Json::Null) => Some(None),
        Some(Json::Str(s)) => Some(Some(s.clone())),
        Some(_) => None,
    }
}

/// Reads a truth value that may be missing or null.
pub fn read_opt_bool(j: &Json, key: &str) -> (r: Option<Option<bool>>)
    ensures
        r == may_bool(j@, key@),
{
    match j.get(key) {
        None => Some(None),
        Some(Json::Null) => Some(None),
        Some(Json::Bool(b)) => Some(Some(*b)),
        Some(_) => None,
    }
}

/// Reads a truth value that is false where it is missing.
pub fn read_bool_or_false(j: &Json, key: &str) -> (r: Option<bool>)
    ensures
        r == bool_or_false(j@, key@),
{
    match j.get(key) {
        None => Some(false),
        Some(Json::Bool(b)) => Some(*b),
        Some(_) => None,
    }
}

/// Reads a number without sign that may be missing or null.
pub fn read_opt_u64(j: &Json, key: &str) -> (r: Option<Option<u64>>)
    ensures
        r == may_u64(j@, key@),
{
    match j.get(key) {
        None => Some(None),
        Some(Json::Null) => Some(None),
        Some(v) => match v.as_u64() {
            Some(n) => Some(Some(n)),
            None => None,
        },
    }
}

/// Reads a number without sign that must be there.
pub fn read_u64(j: &Json, key: &str) -> (r: Option<u64>)
    ensures
        r == need_u64(j@, key@),
{
    match j.get(key) {
        Some(v) => v.as_u64(),
        None => None,
    }
}

/// Reads a number without sign that has a default where it is missing.
pub fn read_u64_or(j: &Json, key: &str, default: u64) -> (r: Option<u64>)
    ensures
        r == u64_or(j@, key@, default),
{
    match j.get(key) {
        None => Some(default),
        Some(v) => v.as_u64(),
    }
}

/// Reads a number with sign that may be missing or null.
pub fn read_opt_i64(j: &Json, key: &str) -> (r: Option<Option<i64>>)
    ensures
        r == may_i64(j@, key@),
{
    match j.get(key) {
        None => Some(None),
        Some(Json::Null) => Some(None),
        Some(Json::Unsigned(n)) => if *n <= i64::MAX as u64 {
            Some(Some(*n as i64))
        } else {
            None
        },
        Some(Json::Negative(n)) => Some(Some(*n)),
        Some(_) => None,
    }
}

/// Reads a request identifier that may be missing or null.
pub fn read_opt_id(j: &Json, key: &str) -> (r: Option<Option<RequestId>>)
    ensures
        match r {
            Some(id) => may_id(j@, key@) == Some(opt_id(id)),
            None => may_id(j@, key@) is None,
        },
{
    match j.get(key) {
        None => Some(None),
        Some(Json::Null) => Some(None),
        Some(v) => match protocol::id_from_json(v) {
            Some(id) => Some(Some(id)),
            None => None,
        },
    }
}

/// Reads a request identifier that must be there.
pub fn read_id(j: &Json, key: &str) -> (r: Option<RequestId>)
    ensures
        opt_id(r) == need_id(j@, key@),
{
    match j.get(key) {
        Some(v) => protocol::id_from_json(v),
        None => None,
    }
}

/// A parameter is taken from under its name and only where it has the type that is asked
/// for. One that need not be there may be missing or null; one with a default may be missing.
pub proof fn law_parameters_are_taken_by_name_and_type(j: JsonView, key: Seq<char>, default: u64)
    ensures
        need_str(j, key) is Some <==> json::field(j, key) is Some && json::at_key(j, key) is Str,
        need_str(j, key) is Some ==> json::at_key(j, key) == JsonView::Str(need_str(j, key)->0),
        may_str(j, key) is Some <==> json::at_key(j, key) is Null || json::at_key(j, key) is Str,
        may_str(j, key) is Some && may_str(j, key)->0 is Some ==> json::at_key(j, key)
            == JsonView::Str(may_str(j, key)->0->0),
        may_str(j, key) == Some(None::<Seq<char>>) ==> json::at_key(j, key) is Null,
        may_bool(j, key) is Some <==> json::at_key(j, key) is Null || json::at_key(j, key) is Bool,
        may_bool(j, key) is Some && may_bool(j, key)->0 is Some ==> json::at_key(j, key)
            == JsonView::Bool(may_bool(j, key)->0->0),
        bool_or_false(j, key) == Some(true) <==> json::at_key(j, key) == JsonView::Bool(true),
        json::field(j, key) is None ==> bool_or_false(j, key) == Some(false),
        need_u64(j, key) is Some ==> json::at_key(j, key) == JsonView::Int(
            need_u64(j, key)->0 as int,
        ),
        may_u64(j, key) is Some && may_u64(j, key)->0 is Some ==> json::at_key(j, key)
            == JsonView::Int(may_u64(j, key)->0->0 as int),
        may_u64(j, key) == Some(None::<u64>) ==> json::at_key(j, key) is Null,
        json::field(j, key) is None ==> u64_or(j, key, default) == Some(default),
        json::field(j, key) is Some && u64_or(j, key, default) is Some ==> json::at_key(j, key)
            == JsonView::Int(u64_or(j, key, default)->0 as int),
        may_i64(j, key) is Some && may_i64(j, key)->0 is Some ==> json::at_key(j, key)
            == JsonView::Int(may_i64(j, key)->0->0 as int),
        need_id(j, key) is Some ==> json::at_key(j, key) == protocol::id_json(need_id(j, key)->0),
        may_id(j, key) is Some && may_id(j, key)->0 is Some ==> json::at_key(j, key)
            == protocol::id_json(may_id(j, key)->0->0),
        may_id(j, key) == Some(None::<RequestIdView>) ==> json::at_key(j, key) is Null,
{
}

/// Parameters in a list stand for the names in their order; an object stands for itself.
pub proof fn law_listed_parameters_stand_for_names(
    p: JsonView,
    names: Seq<Seq<char>>,
    least: nat,
    i: int,
)
    requires
        names.no_duplicates(),
        0 <= i < names.len(),
    ensures
        p is Object ==> named(p, names, least) == p,
        p matches JsonView::Array(v) ==> least <= v.len() <= names.len() ==> json::field(
            named(p, names, least),
            names[i],
        ) == (if i < v.len() {
            Some(v[i])
        } else {
            None
        }),
        p matches JsonView::Array(v) ==> !(least <= v.len() <= names.len()) ==> named(
            p,
            names,
            least,
        ) == p,
{
    if let JsonView::Array(v) = p {
        if least <= v.len() <= names.len() {
            let j = named(p, names, least);
            if i < v.len() {
                json::lemma_field_at(j, names[i], i);
            } else {
                json::lemma_no_field(j, names[i]);
            }
        }
    }
}

/// A parameter is taken exactly where it has its type: a choice by its name or as the only
/// key over null, a number where it is in range, an identifier as a number or a text.
pub proof fn law_parameters_of_their_type_are_taken(
    j: JsonView,
    key: Seq<char>,
    default: u64,
    n: u64,
    i: i64,
    id: RequestIdView,
    w: Seq<char>,
)
    requires
        json::field(j, key) is Some,
    ensures
        json::at_key(j, key) == JsonView::Str(w) ==> need_word(j, key) == Some(w),
        json::at_key(j, key) == JsonView::Object(seq![(w, JsonView::Null)]) ==> need_word(j, key)
            == Some(w),
        json::at_key(j, key) matches JsonView::Object(f) ==> f.len() != 1 || !(f[0].1 is Null)
            ==> need_word(j, key) is None,
        !(json::at_key(j, key) is Str) && !(json::at_key(j, key) is Object) ==> need_word(j, key)
            is None,
        json::at_key(j, key) == JsonView::Int(n as int) ==> need_u64(j, key) == Some(n) && may_u64(
            j,
            key,
        ) == Some(Some(n)) && u64_or(j, key, default) == Some(n),
        !(json::at_key(j, key) is Int) ==> need_u64(j, key) is None && u64_or(j, key, default)
            is None,
        json::at_key(j, key) is Null ==> may_u64(j, key) == Some(None::<u64>) && may_i64(j, key)
            == Some(None::<i64>) && may_id(j, key) == Some(None::<RequestIdView>) && may_str(j, key)
            == Some(None::<Seq<char>>) && may_bool(j, key) == Some(None::<bool>) && bool_or_false(
            j,
            key,
        ) is None,
        json::at_key(j, key) == JsonView::Int(i as int) ==> may_i64(j, key) == Some(Some(i)),
        json::at_key(j, key) == protocol::id_json(id) ==> need_id(j, key) == Some(id) && may_id(
            j,
            key,
        ) == Some(Some(id)),
{
    protocol::law_identifiers_keep_their_kind(id, id);
}

/// Of a parameter that is missing, nothing is taken where it must be there.
pub proof fn law_missing_parameters(j: JsonView, key: Seq<char>)
    requires
        json::field(j, key) is None,
    ensures
        need_str(j, key) is None,
        need_word(j, key) is None,
        need_u64(j, key) is None,
        need_id(j, key) is None,
        may_str(j, key) == Some(None::<Seq<char>>),
        may_bool(j, key) == Some(None::<bool>),
        may_u64(j, key) == Some(None::<u64>),
        may_i64(j, key) == Some(None::<i64>),
        may_id(j, key) == Some(None::<RequestIdView>),
{
}

} // verus!
