//! A JSON value type owned by the library, with a mathematical model.

use vstd::prelude::*;
use crate::text::{
    all_digits, chars_of, decimal_spec, digits_value, lemma_decimal_leading, lemma_decimal_roundtrip,
    parse_u64, parse_u64_spec,
};

verus! {

/// A JSON value. Numbers are kept in their JSON text form.
#[derive(Debug)]
pub enum Json {
    Null,
    Bool(bool),
    Number(String),
    Text(String),
    Array(Vec<Json>),
    Object(Vec<(String, Json)>),
}

/// The mathematical model of a JSON value.
pub enum JsonModel {
    Null,
    Bool(bool),
    Number(Seq<char>),
    Text(Seq<char>),
    Array(Seq<JsonModel>),
    Object(Seq<(Seq<char>, JsonModel)>),
}

pub open spec fn elems_view(v: Seq<Json>) -> Seq<JsonModel>
    decreases v,
{
    if v.len() == 0 {
        Seq::empty()
    } else {
        elems_view(v.drop_last()).push(json_view(v.last()))
    }
}

pub open spec fn entries_view(v: Seq<(String, Json)>) -> Seq<(Seq<char>, JsonModel)>
    decreases v,
{
    if v.len() == 0 {
        Seq::empty()
    } else {
        entries_view(v.drop_last()).push((v.last().0@, json_view(v.last().1)))
    }
}

pub open spec fn json_view(j: Json) -> JsonModel
    decreases j,
{
    match j {
        Json::Null => JsonModel::Null,
        Json::Bool(b) => JsonModel::Bool(b),
        Json::Number(n) => JsonModel::Number(n@),
        Json::Text(s) => JsonModel::Text(s@),
        Json::Array(v) => JsonModel::Array(elems_view(v@)),
        Json::Object(v) => JsonModel::Object(entries_view(v@)),
    }
}


impl View for Json {
    type V = JsonModel;

    open spec fn view(&self) -> JsonModel {
        json_view(*self)
    }
}

/// The `i`-th element's model is the model of the `i`-th element.
pub proof fn lemma_elems_view(v: Seq<Json>)
    ensures
        elems_view(v).len() == v.len(),
        forall|i: int| 0 <= i < v.len() ==> #[trigger] elems_view(v)[i] == json_view(v[i]),
    decreases v.len(),
{
    if v.len() > 0 {
        lemma_elems_view(v.drop_last());
    }
}

/// The `i`-th entry's model is the `i`-th entry's key and value model.
pub proof fn lemma_entries_view(v: Seq<(String, Json)>)
    ensures
        entries_view(v).len() == v.len(),
        forall|i: int|
            0 <= i < v.len() ==> #[trigger] entries_view(v)[i] == (v[i].0@, json_view(v[i].1)),
    decreases v.len(),
{
    if v.len() > 0 {
        lemma_entries_view(v.drop_last());
    }
}

/// The value of the first entry from index `i` on whose key is `key`.
pub open spec fn lookup_from(e: Seq<(Seq<char>, JsonModel)>, key: Seq<char>, i: int) -> Option<JsonModel>
    decreases e.len() - i,
{
    if i < 0 || i >= e.len() {
        None
    } else if e[i].0 == key {
        Some(e[i].1)
    } else {
        lookup_from(e, key, i + 1)
    }
}

impl JsonModel {
    /// The member `key` of an object (its first entry with that key); `None` for
    /// a missing key or a value that is not an object.
    pub open spec fn get(self, key: Seq<char>) -> Option<JsonModel> {
        match self {
            JsonModel::Object(e) => lookup_from(e, key, 0),
            _ => None,
        }
    }

    /// The text of a JSON string.
    pub open spec fn as_str(self) -> Option<Seq<char>> {
        match self {
            JsonModel::Text(s) => Some(s),
            _ => None,
        }
    }

    /// A number that is a non-negative integer fitting in a `u64`.
    pub open spec fn as_u64(self) -> Option<u64> {
        match self {
            JsonModel::Number(n) => parse_u64_spec(n),
            _ => None,
        }
    }
}

/// Whether two strings hold the same characters.
pub fn same_text(a: &str, b: &str) -> (r: bool)
    ensures
        r == (a@ == b@),
{
    let x = chars_of(a);
    let y = chars_of(b);
    if x.len() != y.len() {
        return false;
    }
    let mut i: usize = 0;
    while i < x.len()
        invariant
            x@ == a@,
            y@ == b@,
            x.len() == y.len(),
            i <= x.len(),
            forall|k: int| 0 <= k < i ==> x@[k] == y@[k],
        decreases x.len() - i,
    {
        if x[i] != y[i] {
            return false;
        }
        i = i + 1;
    }
    assert(x@ =~= y@);
    true
}

impl Json {
    /// The member `key` of an object.
    pub fn get<'a>(&'a self, key: &str) -> (r: Option<&'a Json>)
        ensures
            match r {
                Some(v) => self@.get(key@) == Some(v@),
                None => self@.get(key@) is None,
            },
    {
        match self {
            Json::Object(entries) => {
                let ghost e = entries_view(entries@);
                proof {
                    lemma_entries_view(entries@);
                }
                assert(self@ == JsonModel::Object(e));
                let mut i: usize = 0;
                while i < entries.len()
                    invariant
                        self@ == JsonModel::Object(e),
                        e == entries_view(entries@),
                        e.len() == entries.len(),
                        forall|k: int|
                            0 <= k < entries.len() ==> #[trigger] e[k] == (
                                entries@[k].0@,
                                json_view(entries@[k].1),
                            ),
                        i <= entries.len(),
                        lookup_from(e, key@, 0) == lookup_from(e, key@, i as int),
                    decreases entries.len() - i,
                {
                    if same_text(entries[i].0.as_str(), key) {
                        assert(e[i as int].0 == key@);
                        return Some(&entries[i].1);
                    }
                    i = i + 1;
                }
                assert(self@ == JsonModel::Object(e));
                None
            },
            _ => None,
        }
    }

    /// The text of a JSON string.
    pub fn as_str(&self) -> (r: Option<&str>)
        ensures
            match r {
                Some(s) => self@.as_str() == Some(s@),
                None => self@.as_str() is None,
            },
    {
        match self {
            Json::Text(s) => Some(s.as_str()),
            _ => None,
        }
    }

    /// A number that is a non-negative integer fitting in a `u64`.
    pub fn as_u64(&self) -> (r: Option<u64>)
        ensures
            r == self@.as_u64(),
    {
        match self {
            Json::Number(n) => parse_u64(n.as_str()),
            _ => None,
        }
    }
}


/// Texts in code point order, shorter first on a common prefix: the order of
/// `String`'s `Ord`, which serde_json's maps keep their keys in.
pub open spec fn text_less(a: Seq<char>, b: Seq<char>) -> bool
    decreases a.len(),
{
    if a.len() == 0 {
        b.len() > 0
    } else if b.len() == 0 {
        false
    } else if a[0] != b[0] {
        (a[0] as u32) < (b[0] as u32)
    } else {
        text_less(a.drop_first(), b.drop_first())
    }
}

/// Integer text as serde_json writes the integers it parses: `0`, a digit string
/// without leading zero within `u64`, or `-` and such a string no greater than 2^63.
pub open spec fn is_integer_text(t: Seq<char>) -> bool {
    ||| t == seq!['0']
    ||| (t.len() > 0 && t[0] != '0' && all_digits(t) && digits_value(t) <= u64::MAX)
    ||| (t.len() > 1 && t[0] == '-' && t[1] != '0' && all_digits(t.drop_first()) && digits_value(
        t.drop_first(),
    ) <= 0x8000_0000_0000_0000)
}

/// Object keys in strictly increasing order, as serde_json's maps hold them.
pub open spec fn keys_increasing(e: Seq<(Seq<char>, JsonModel)>) -> bool {
    forall|i: int, j: int| 0 <= i < j < e.len() ==> text_less(#[trigger] e[i].0, #[trigger] e[j].0)
}

/// A value that serde_json reads back unchanged from its own text: numbers are
/// integer text, object keys strictly increase, and so on inside.
pub open spec fn is_canonical(m: JsonModel) -> bool
    decreases m,
{
    match m {
        JsonModel::Number(t) => is_integer_text(t),
        JsonModel::Array(v) => elems_canonical(v),
        JsonModel::Object(e) => keys_increasing(e) && entries_canonical(e),
        _ => true,
    }
}

/// Every element is canonical.
pub open spec fn elems_canonical(v: Seq<JsonModel>) -> bool
    decreases v,
{
    if v.len() == 0 {
        true
    } else {
        elems_canonical(v.drop_last()) && is_canonical(v.last())
    }
}

/// Every member value is canonical.
pub open spec fn entries_canonical(e: Seq<(Seq<char>, JsonModel)>) -> bool
    decreases e,
{
    if e.len() == 0 {
        true
    } else {
        entries_canonical(e.drop_last()) && is_canonical(e.last().1)
    }
}

/// How deep arrays and objects nest in `m` (0 for a scalar).
pub open spec fn json_depth(m: JsonModel) -> nat
    decreases m,
{
    match m {
        JsonModel::Array(v) => 1 + elems_depth(v),
        JsonModel::Object(e) => 1 + entries_depth(e),
        _ => 0,
    }
}

/// The greatest depth among the elements.
pub open spec fn elems_depth(v: Seq<JsonModel>) -> nat
    decreases v,
{
    if v.len() == 0 {
        0
    } else {
        let a = elems_depth(v.drop_last());
        let b = json_depth(v.last());
        if a < b {
            b
        } else {
            a
        }
    }
}

/// The greatest depth among the member values.
pub open spec fn entries_depth(e: Seq<(Seq<char>, JsonModel)>) -> nat
    decreases e,
{
    if e.len() == 0 {
        0
    } else {
        let a = entries_depth(e.drop_last());
        let b = json_depth(e.last().1);
        if a < b {
            b
        } else {
            a
        }
    }
}

/// How deep serde_json's parser lets arrays and objects nest.
pub open spec fn parse_depth_limit() -> nat {
    127
}

/// The decimal text of a `u64` is integer text as serde_json writes it.
pub proof fn lemma_decimal_is_integer_text(n: u64)
    ensures
        is_integer_text(decimal_spec(n as nat)),
{
    lemma_decimal_leading(n as nat);
    lemma_decimal_roundtrip(n as nat);
    if n == 0 {
        assert(decimal_spec(0) =~= seq!['0']);
    }
}

/// The larger of two depths.
pub open spec fn max_depth(a: nat, b: nat) -> nat {
    if a < b {
        b
    } else {
        a
    }
}

/// Canonical form and depth of an object with one member.
pub proof fn lemma_object_one(a: (Seq<char>, JsonModel))
    ensures
        is_canonical(JsonModel::Object(seq![a])) == is_canonical(a.1),
        json_depth(JsonModel::Object(seq![a])) == 1 + json_depth(a.1),
{
    let e = seq![a];
    assert(e.drop_last() =~= Seq::<(Seq<char>, JsonModel)>::empty());
    assert(entries_canonical(Seq::<(Seq<char>, JsonModel)>::empty()));
    assert(entries_depth(Seq::<(Seq<char>, JsonModel)>::empty()) == 0);
}

/// Canonical form and depth of an object with two members.
pub proof fn lemma_object_two(a: (Seq<char>, JsonModel), b: (Seq<char>, JsonModel))
    ensures
        is_canonical(JsonModel::Object(seq![a, b])) == (text_less(a.0, b.0) && is_canonical(a.1)
            && is_canonical(b.1)),
        json_depth(JsonModel::Object(seq![a, b])) == 1 + max_depth(json_depth(a.1), json_depth(b.1)),
{
    let e = seq![a, b];
    assert(e.drop_last() =~= seq![a]);
    assert(seq![a].drop_last() =~= Seq::<(Seq<char>, JsonModel)>::empty());
    assert(entries_canonical(Seq::<(Seq<char>, JsonModel)>::empty()));
    assert(entries_depth(Seq::<(Seq<char>, JsonModel)>::empty()) == 0);
    assert(entries_canonical(seq![a]) == is_canonical(a.1));
    assert(entries_depth(seq![a]) == json_depth(a.1));
    assert(keys_increasing(e) == text_less(a.0, b.0)) by {
        if text_less(a.0, b.0) {
            assert forall|i: int, j: int| 0 <= i < j < e.len() implies text_less(#[trigger] e[i].0, #[trigger] e[j].0) by {
                assert(i == 0 && j == 1);
            }
        } else {
            assert(e[0].0 == a.0 && e[1].0 == b.0);
        }
    }
}

/// Canonical form and depth of an object with three members.
pub proof fn lemma_object_three(a: (Seq<char>, JsonModel), b: (Seq<char>, JsonModel), c: (Seq<char>, JsonModel))
    requires
        text_less(a.0, b.0),
        text_less(a.0, c.0),
        text_less(b.0, c.0),
        is_canonical(a.1),
        is_canonical(b.1),
        is_canonical(c.1),
    ensures
        is_canonical(JsonModel::Object(seq![a, b, c])),
        json_depth(JsonModel::Object(seq![a, b, c])) == 1 + max_depth(
            max_depth(json_depth(a.1), json_depth(b.1)),
            json_depth(c.1),
        ),
{
    let e = seq![a, b, c];
    lemma_object_two(a, b);
    assert(e.drop_last() =~= seq![a, b]);
    assert(seq![a, b].drop_last() =~= seq![a]);
    assert(seq![a].drop_last() =~= Seq::<(Seq<char>, JsonModel)>::empty());
    assert(entries_canonical(Seq::<(Seq<char>, JsonModel)>::empty()));
    assert(entries_depth(Seq::<(Seq<char>, JsonModel)>::empty()) == 0);
    assert(entries_canonical(seq![a]));
    assert(entries_depth(seq![a]) == json_depth(a.1));
    assert(entries_canonical(seq![a, b]));
    assert(entries_depth(seq![a, b]) == max_depth(json_depth(a.1), json_depth(b.1)));
    assert forall|i: int, j: int| 0 <= i < j < e.len() implies text_less(#[trigger] e[i].0, #[trigger] e[j].0) by {
        if i == 0 && j == 1 {
        } else if i == 0 {
        } else {
        }
    }
}

/// Canonical form and depth of an array with one element.
pub proof fn lemma_array_one(x: JsonModel)
    ensures
        is_canonical(JsonModel::Array(seq![x])) == is_canonical(x),
        json_depth(JsonModel::Array(seq![x])) == 1 + json_depth(x),
{
    assert(seq![x].drop_last() =~= Seq::<JsonModel>::empty());
    assert(elems_canonical(Seq::<JsonModel>::empty()));
    assert(elems_depth(Seq::<JsonModel>::empty()) == 0);
}

/// The empty array is canonical, one level deep.
pub proof fn lemma_array_empty()
    ensures
        is_canonical(JsonModel::Array(Seq::empty())),
        json_depth(JsonModel::Array(Seq::empty())) == 1,
{
    assert(elems_canonical(Seq::<JsonModel>::empty()));
    assert(elems_depth(Seq::<JsonModel>::empty()) == 0);
}

/// A canonical value nested no deeper than serde_json's parser allows.
pub open spec fn reads_back_unchanged(m: JsonModel) -> bool {
    is_canonical(m) && json_depth(m) <= parse_depth_limit()
}

/// A parse that succeeds with `m`.
pub open spec fn parse_ok(m: JsonModel) -> Result<JsonModel, Seq<char>> {
    Ok(m)
}

/// `serde_json::Value`, carried through unopened by the conversion helpers below.
#[verifier::external_type_specification]
#[verifier::external_body]
pub struct ExJsonValue(serde_json::Value);

/// The compact JSON text that serde_json writes for the value modelled by `v`
/// (object members in serde_json's map order, numbers as their JSON text).
pub uninterp spec fn json_text(v: JsonModel) -> Seq<char>;

/// What `serde_json::from_str::<serde_json::Value>` makes of `text`: the value, or
/// the text of its error.
pub uninterp spec fn json_parse(text: Seq<char>) -> Result<JsonModel, Seq<char>>;

/// Rebuilds a library value as a `serde_json::Value`, one variant for one variant
/// (number text through `serde_json::Number`'s parser, `Null` where it refuses the text).
/// Nothing is stated of it: it is the argument conversion of `json_to_text`.
#[verifier::external_body]
fn value_of(j: &Json) -> serde_json::Value {
    match j {
        Json::Null => serde_json::Value::Null,
        Json::Bool(b) => serde_json::Value::Bool(*b),
        Json::Number(n) => n.parse::<serde_json::Number>().map_or(serde_json::Value::Null, serde_json::Value::Number),
        Json::Text(s) => serde_json::Value::String(s.clone()),
        Json::Array(v) => serde_json::Value::Array(v.iter().map(value_of).collect()),
        Json::Object(v) => serde_json::Value::Object(v.iter().map(|(k, x)| (k.clone(), value_of(x))).collect()),
    }
}

/// Rebuilds a `serde_json::Value` as a library value, one variant for one variant
/// (numbers as the text serde_json displays for them). Nothing is stated of it: it
/// is the result conversion of `parse_json`.
#[verifier::external_body]
fn json_of(v: serde_json::Value) -> Json {
    match v {
        serde_json::Value::Null => Json::Null,
        serde_json::Value::Bool(b) => Json::Bool(b),
        serde_json::Value::Number(n) => Json::Number(n.to_string()),
        serde_json::Value::String(s) => Json::Text(s),
        serde_json::Value::Array(a) => Json::Array(a.into_iter().map(json_of).collect()),
        serde_json::Value::Object(m) => Json::Object(m.into_iter().map(|(k, x)| (k, json_of(x))).collect()),
    }
}

/// The compact JSON text of `j`, written by serde_json (`Display` of
/// `serde_json::Value`, the same text as `serde_json::to_string`). Claimed: the
/// result is `json_text` of `j`'s model, a function of the model alone, and it
/// holds no line feed (the compact writer adds no white space between tokens and
/// escapes control characters inside strings). And serde_json's parser reads a
/// canonical value (integer numbers in serde_json's own text, keys in map order)
/// nested no deeper than its recursion limit back from that text unchanged.
#[verifier::external_body]
pub(crate) fn json_to_text(j: &Json) -> (r: String)
    ensures
        r@ == json_text(j@),
        !r@.contains('\n'),
        reads_back_unchanged(j@) ==> json_parse(r@) == parse_ok(j@),
{
    value_of(j).to_string()
}

/// Parses `text` with `serde_json::from_str::<serde_json::Value>`. Claimed: the
/// value's model, or the error's display text, is `json_parse` of `text`.
#[verifier::external_body]
pub(crate) fn parse_json(text: &str) -> (r: Result<Json, String>)
    ensures
        match r {
            Ok(j) => json_parse(text@) == Ok::<JsonModel, Seq<char>>(j@),
            Err(m) => json_parse(text@) == Err::<JsonModel, Seq<char>>(m@),
        },
{
    match serde_json::from_str::<serde_json::Value>(text) {
        Ok(v) => Ok(json_of(v)),
        Err(e) => Err(e.to_string()),
    }
}

} // verus!
