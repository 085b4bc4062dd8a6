//! A model of JSON documents.
//!
//! Project files are JSON text. The loader first parses the raw bytes into
//! the `Json` tree below and then projects that tree onto the project
//! schema. Numbers are kept as integers where they are integral and as
//! their decimal text otherwise; object entries keep the ascending key
//! order in which the parser hands them out.

use vstd::prelude::*;

verus! {

/// One JSON value, as this crate stores it.
#[derive(Debug, PartialEq)]
pub enum Json {
    Null,
    Bool(bool),
    /// An integral number in `0 ..= u64::MAX`.
    UInt(u64),
    /// A negative integral number.
    Int(i64),
    /// Any other number, kept as its decimal text.
    NumText(String),
    Str(String),
    Arr(Vec<Json>),
    Obj(Vec<(String, Json)>),
}

/// The mathematical value of a `Json` tree: strings become sequences of
/// characters and both integer variants collapse into one unbounded
/// integer.
pub enum JsonData {
    Null,
    Bool(bool),
    Int(int),
    NumText(Seq<char>),
    Str(Seq<char>),
    Arr(Seq<JsonData>),
    Obj(Seq<(Seq<char>, JsonData)>),
}

pub open spec fn json_view(j: Json) -> JsonData
    decreases j,
{
    match j {
        Json::Null => JsonData::Null,
        Json::Bool(b) => JsonData::Bool(b),
        Json::UInt(u) => JsonData::Int(u as int),
        Json::Int(i) => JsonData::Int(i as int),
        Json::NumText(t) => JsonData::NumText(t@),
        Json::Str(s) => JsonData::Str(s@),
        Json::Arr(v) => JsonData::Arr(json_seq_view(v@)),
        Json::Obj(v) => JsonData::Obj(json_entries_view(v@)),
    }
}

pub open spec fn json_seq_view(s: Seq<Json>) -> Seq<JsonData>
    decreases s,
{
    Seq::new(
        s.len(),
        |i: int|
            if 0 <= i < s.len() {
                json_view(s[i])
            } else {
                JsonData::Null
            },
    )
}

pub open spec fn json_entries_view(s: Seq<(String, Json)>) -> Seq<(Seq<char>, JsonData)>
    decreases s,
{
    Seq::new(
        s.len(),
        |i: int|
            if 0 <= i < s.len() {
                (s[i].0@, json_view(s[i].1))
            } else {
                (Seq::<char>::empty(), JsonData::Null)
            },
    )
}

impl View for Json {
    type V = JsonData;

    open spec fn view(&self) -> JsonData {
        json_view(*self)
    }
}

impl Clone for Json {
    fn clone(&self) -> (r: Json)
        ensures
            r@ == self@,
        decreases self,
    {
        match self {
            Json::Null => Json::Null,
            Json::Bool(b) => Json::Bool(*b),
            Json::UInt(u) => Json::UInt(*u),
            Json::Int(i) => Json::Int(*i),
            Json::NumText(t) => Json::NumText(t.clone()),
            Json::Str(s) => Json::Str(s.clone()),
            Json::Arr(v) => {
                let r = clone_json_vec(v);
                proof {
                    assert forall|i: int|
                        0 <= i < r@.len() implies json_seq_view(r@)[i] == json_seq_view(v@)[i] by {
                        assert(json_view(r@[i]) == json_view(v@[i]));
                    }
                    assert(json_seq_view(r@) =~= json_seq_view(v@));
                }
                Json::Arr(r)
            },
            Json::Obj(v) => {
                let r = clone_json_entries(v);
                proof {
                    assert(json_entries_view(r@) =~= json_entries_view(v@));
                }
                Json::Obj(r)
            },
        }
    }
}

fn clone_json_vec(v: &Vec<Json>) -> (r: Vec<Json>)
    ensures
        r@.len() == v@.len(),
        forall|i: int| 0 <= i < v@.len() ==> #[trigger] json_view(r@[i]) == json_view(v@[i]),
    decreases v,
{
    let mut r: Vec<Json> = Vec::new();
    let mut idx: usize = 0;
    while idx < v.len()
        invariant
            idx <= v@.len(),
            r@.len() == idx as int,
            forall|i: int|
                0 <= i < idx as int ==> #[trigger] json_view(r@[i]) == json_view(v@[i]),
        decreases v@.len() - idx,
    {
        r.push(v[idx].clone());
        idx += 1;
    }
    r
}

pub(crate) fn clone_json_entries(v: &Vec<(String, Json)>) -> (r: Vec<(String, Json)>)
    ensures
        r@.len() == v@.len(),
        forall|i: int|
            0 <= i < v@.len() ==> #[trigger] r@[i].0@ == v@[i].0@ && json_view(r@[i].1)
                == json_view(v@[i].1),
    decreases v,
{
    let mut r: Vec<(String, Json)> = Vec::new();
    let mut idx: usize = 0;
    while idx < v.len()
        invariant
            idx <= v@.len(),
            r@.len() == idx as int,
            forall|i: int|
                0 <= i < idx as int ==> #[trigger] r@[i].0@ == v@[i].0@ && json_view(r@[i].1)
                    == json_view(v@[i].1),
        decreases v@.len() - idx,
    {
        let key = v[idx].0.clone();
        let value = v[idx].1.clone();
        r.push((key, value));
        idx += 1;
    }
    r
}

/// Strict lexicographic order on character sequences, comparing characters
/// by their scalar values. On text coming out of `serde_json` this agrees
/// with the byte-wise order that `String`'s `Ord` uses, because UTF-8
/// preserves the order of scalar values.
pub open spec fn lex_lt(a: Seq<char>, b: Seq<char>) -> bool
    decreases a.len(),
{
    if b.len() == 0 {
        false
    } else if a.len() == 0 {
        true
    } else if a[0] == b[0] {
        lex_lt(a.skip(1), b.skip(1))
    } else {
        (a[0] as u32) < (b[0] as u32)
    }
}

/// Every object anywhere in the document keeps its entries in strictly
/// ascending key order; in particular no key repeats within one object.
pub open spec fn json_obj_wf(d: JsonData) -> bool
    decreases d,
{
    match d {
        JsonData::Arr(elems) => forall|i: int|
            0 <= i < elems.len() ==> json_obj_wf(#[trigger] elems[i]),
        JsonData::Obj(entries) => {
            &&& forall|i: int, j: int|
                0 <= i < j < entries.len() ==> lex_lt(
                    #[trigger] entries[i].0,
                    #[trigger] entries[j].0,
                )
            &&& forall|i: int| 0 <= i < entries.len() ==> json_obj_wf(#[trigger] entries[i].1)
        },
        _ => true,
    }
}

/// The document denoted by a byte string, if the bytes are well-formed
/// JSON; what `parse_json` returns is a function of the bytes alone.
pub uninterp spec fn json_of(bytes: Seq<u8>) -> Option<JsonData>;

/// Relies on `serde_json::from_slice::<serde_json::Value>`: whether the
/// bytes are well-formed JSON, and which document they denote, depends on
/// the bytes alone, and object entries come out of `serde_json::Map` (a
/// `BTreeMap` by default) in ascending key order with no key repeated.
#[verifier::external_body]
pub(crate) fn parse_json(bytes: &[u8]) -> (r: Result<Json, String>)
    ensures
        r matches Ok(j) ==> json_of(bytes@) == Some(j@) && json_obj_wf(j@),
        r is Err ==> json_of(bytes@) is None,
{
    match serde_json::from_slice::<serde_json::Value>(bytes) {
        Ok(v) => Ok(json_from_value(v)),
        Err(e) => Err(e.to_string()),
    }
}

#[verifier::external_type_specification]
#[verifier::external_body]
pub struct ExSerdeJsonValue(serde_json::Value);

/// Relies on the `serde_json::Value` variants and the `serde_json::Number`
/// accessors `as_u64`, `as_i64` and `to_string` to carry each parsed value
/// over into this crate's `Json`, variant by variant.
#[verifier::external_body]
fn json_from_value(v: serde_json::Value) -> Json {
    match v {
        serde_json::Value::Null => Json::Null,
        serde_json::Value::Bool(b) => Json::Bool(b),
        serde_json::Value::Number(n) => match (n.as_u64(), n.as_i64()) {
            (Some(u), _) => Json::UInt(u),
            (None, Some(i)) => Json::Int(i),
            (None, None) => Json::NumText(n.to_string()),
        },
        serde_json::Value::String(s) => Json::Str(s),
        serde_json::Value::Array(a) => Json::Arr(a.into_iter().map(json_from_value).collect()),
        serde_json::Value::Object(m) => Json::Obj(
            m.into_iter().map(|(k, x)| (k, json_from_value(x))).collect(),
        ),
    }
}

} // verus!
