//! The library's own model of a JSON value, as the Management API returns it.
use vstd::prelude::*;
use crate::text::{dec, int_text, push_char, push_dec, str_equal, magnitude};

verus! {

/// A JSON value.
///
/// Numbers keep the distinctions that serde_json keeps: non-negative integers,
/// negative integers, and other numbers, the last held as their decimal text.
/// Object members are held in the order in which the map iterates them.
#[derive(Debug)]
pub enum Json {
    Null,
    Bool(bool),
    PosInt(u64),
    NegInt(i64),
    Float(String),
    Str(String),
    Array(Vec<Json>),
    Object(Vec<(String, Json)>),
}

/// First member of `members` whose key is `key`.
pub open spec fn lookup(members: Seq<(String, Json)>, key: Seq<char>) -> Option<Json>
    decreases members.len(),
{
    if members.len() == 0 {
        None
    } else if members[0].0@ == key {
        Some(members[0].1)
    } else {
        lookup(members.drop_first(), key)
    }
}

/// `Value::get(key)`: the member named `key` of an object, `None` for other values.
pub open spec fn spec_get(v: Json, key: Seq<char>) -> Option<Json> {
    match v {
        Json::Object(m) => lookup(m@, key),
        _ => None,
    }
}

impl Json {
    pub fn get(&self, key: &str) -> (r: Option<&Json>)
        ensures
            match r {
                Some(x) => spec_get(*self, key@) == Some(*x),
                None => spec_get(*self, key@) is None,
            },
    {
        match self {
            Json::Object(m) => {
                let mut i: usize = 0;
                assert(m@.skip(0) =~= m@);
                while i < m.len()
                    invariant
                        i <= m@.len(),
                        spec_get(*self, key@) == lookup(m@, key@),
                        lookup(m@, key@) == lookup(m@.skip(i as int), key@),
                    decreases m@.len() - i,
                {
                    assert(m@.skip(i as int).drop_first() =~= m@.skip(i + 1));
                    assert(m@.skip(i as int)[0] == m@[i as int]);
                    if str_equal(m[i].0.as_str(), key) {
                        return Some(&m[i].1);
                    }
                    i = i + 1;
                }
                None
            }
            _ => None,
        }
    }
}


/// `Value::as_i64`.
pub open spec fn spec_as_i64(v: Json) -> Option<i64> {
    match v {
        Json::PosInt(u) => if u <= i64::MAX { Some(u as i64) } else { None },
        Json::NegInt(i) => Some(i),
        _ => None,
    }
}

/// `Value::as_u64`.
pub open spec fn spec_as_u64(v: Json) -> Option<u64> {
    match v {
        Json::PosInt(u) => Some(u),
        _ => None,
    }
}

/// `Display` of a JSON number.
pub open spec fn number_text(v: Json) -> Seq<char> {
    match v {
        Json::PosInt(u) => dec(u as nat),
        Json::NegInt(i) => int_text(i as int),
        Json::Float(t) => t@,
        _ => seq![],
    }
}

impl Json {
    pub fn is_null(&self) -> (b: bool)
        ensures
            b == (*self is Null),
    {
        match self {
            Json::Null => true,
            _ => false,
        }
    }

    pub fn as_str(&self) -> (r: Option<&str>)
        ensures
            match *self {
                Json::Str(s) => r matches Some(x) && x@ == s@,
                _ => r is None,
            },
    {
        match self {
            Json::Str(s) => Some(s.as_str()),
            _ => None,
        }
    }

    pub fn as_array(&self) -> (r: Option<&Vec<Json>>)
        ensures
            match *self {
                Json::Array(a) => r == Some(&a),
                _ => r is None,
            },
    {
        match self {
            Json::Array(a) => Some(a),
            _ => None,
        }
    }

    pub fn as_object(&self) -> (r: Option<&Vec<(String, Json)>>)
        ensures
            match *self {
                Json::Object(m) => r == Some(&m),
                _ => r is None,
            },
    {
        match self {
            Json::Object(m) => Some(m),
            _ => None,
        }
    }

    pub fn as_bool(&self) -> (r: Option<bool>)
        ensures
            match *self {
                Json::Bool(b) => r == Some(b),
                _ => r is None,
            },
    {
        match self {
            Json::Bool(b) => Some(*b),
            _ => None,
        }
    }

    pub fn as_i64(&self) -> (r: Option<i64>)
        ensures
            r == spec_as_i64(*self),
    {
        match self {
            Json::PosInt(u) => if *u <= 9223372036854775807u64 { Some(*u as i64) } else { None },
            Json::NegInt(i) => Some(*i),
            _ => None,
        }
    }

    pub fn as_u64(&self) -> (r: Option<u64>)
        ensures
            r == spec_as_u64(*self),
    {
        match self {
            Json::PosInt(u) => Some(*u),
            _ => None,
        }
    }
}

/// Appends `Display` of a JSON number.
pub fn push_number(out: &mut String, v: &Json)
    requires
        *v is PosInt || *v is NegInt || *v is Float,
    ensures
        final(out)@ == old(out)@ + number_text(*v),
{
    match v {
        Json::PosInt(u) => push_dec(out, *u),
        Json::NegInt(i) => {
            if *i < 0 {
                push_char(out, '-');
            }
            push_dec(out, magnitude(*i));
            assert(final(out)@ =~= old(out)@ + int_text(*i as int));
        }
        Json::Float(t) => out.append(t.as_str()),
        _ => {}
    }
}

// ---------------------------------------------------------------- serialization

#[verifier::external_type_specification]
#[verifier::external_body]
pub struct ExValue(serde_json::Value);

/// The serde_json value with the same content, variant for variant: numbers
/// from their integer or their decimal text, members in order.
#[verifier::external_body]
pub(crate) fn to_value(v: &Json) -> serde_json::Value {
    match v {
        Json::Null => serde_json::Value::Null,
        Json::Bool(b) => serde_json::Value::Bool(*b),
        Json::PosInt(u) => serde_json::Value::from(*u),
        Json::NegInt(i) => serde_json::Value::from(*i),
        Json::Float(t) => t.parse::<serde_json::Number>().map_or(serde_json::Value::Null, serde_json::Value::Number),
        Json::Str(s) => serde_json::Value::String(s.clone()),
        Json::Array(a) => serde_json::Value::Array(a.iter().map(to_value).collect()),
        Json::Object(m) => serde_json::Value::Object(m.iter().map(|(k, x)| (k.clone(), to_value(x))).collect()),
    }
}

/// The compact JSON text that `Display` of serde_json's `Value` writes.
pub uninterp spec fn json_text(v: JsonV) -> Seq<char>;

/// `v.to_string()`: the compact JSON text.
pub open spec fn compact(v: Json) -> Seq<char> {
    json_text(v@)
}

/// `Display` of serde_json's `Value` (compact JSON). The contract names the
/// text and ties it to the value; what the text looks like is serde_json's.
#[verifier::external_body]
pub(crate) fn compact_text(v: &Json) -> (r: String)
    ensures
        r@ == json_text(v@),
{
    to_value(v).to_string()
}

// ---------------------------------------------------------------- abstract view

/// The mathematical value of a JSON document.
pub enum JsonV {
    Null,
    Bool(bool),
    PosInt(u64),
    NegInt(i64),
    Float(Seq<char>),
    Str(Seq<char>),
    Array(Seq<JsonV>),
    Object(Seq<(Seq<char>, JsonV)>),
}

pub open spec fn jv(v: Json) -> JsonV
    decreases v,
{
    match v {
        Json::Null => JsonV::Null,
        Json::Bool(b) => JsonV::Bool(b),
        Json::PosInt(u) => JsonV::PosInt(u),
        Json::NegInt(i) => JsonV::NegInt(i),
        Json::Float(t) => JsonV::Float(t@),
        Json::Str(s) => JsonV::Str(s@),
        Json::Array(a) => JsonV::Array(jv_list(a@)),
        Json::Object(m) => JsonV::Object(jv_members(m@)),
    }
}

pub open spec fn jv_list(s: Seq<Json>) -> Seq<JsonV>
    decreases s,
{
    if s.len() == 0 { seq![] } else { jv_list(s.drop_last()).push(jv(s.last())) }
}

pub open spec fn jv_members(m: Seq<(String, Json)>) -> Seq<(Seq<char>, JsonV)>
    decreases m,
{
    if m.len() == 0 {
        seq![]
    } else {
        jv_members(m.drop_last()).push((m.last().0@, jv(m.last().1)))
    }
}

impl View for Json {
    type V = JsonV;

    open spec fn view(&self) -> JsonV {
        jv(*self)
    }
}

/// A JSON string value.
pub fn jstr(s: &str) -> (r: Json)
    ensures
        r@ == JsonV::Str(s@),
{
    Json::Str(String::from_str(s))
}

/// A JSON object with one member.
pub fn object1(k: &str, v: Json) -> (r: Json)
    ensures
        r@ == JsonV::Object(seq![(k@, v@)]),
{
    let mut m: Vec<(String, Json)> = Vec::new();
    let key = String::from_str(k);
    let ghost vv = v;
    m.push((key, v));
    let ghost ms = m@;
    assert(ms.drop_last() =~= Seq::<(String, Json)>::empty());
    assert(jv_members(ms.drop_last()) =~= Seq::<(Seq<char>, JsonV)>::empty());
    assert(ms.last().0@ == k@);
    assert(ms.last().1 == vv);
    assert(jv_members(ms) =~= seq![(k@, jv(vv))]);
    Json::Object(m)
}


/// Adds a member to an object under construction.
pub fn push_member(m: &mut Vec<(String, Json)>, k: &str, v: Json)
    ensures
        jv_members(final(m)@) == jv_members(old(m)@).push((k@, v@)),
{
    let key = String::from_str(k);
    let ghost vv = v;
    m.push((key, v));
    assert(final(m)@.drop_last() =~= old(m)@);
    assert(final(m)@.last().1 == vv);
}

/// A JSON object with the members of `m`, in order.
pub fn object_of(m: Vec<(String, Json)>) -> (r: Json)
    ensures
        r@ == JsonV::Object(jv_members(m@)),
{
    Json::Object(m)
}

/// JSON strings for each text.
pub open spec fn str_values(ts: Seq<Seq<char>>) -> Seq<JsonV>
    decreases ts.len(),
{
    if ts.len() == 0 { seq![] } else { str_values(ts.drop_last()).push(JsonV::Str(ts.last())) }
}

/// A JSON array of strings.
pub fn string_array(items: &Vec<String>) -> (r: Json)
    ensures
        r@ == JsonV::Array(str_values(crate::text::texts(items@))),
{
    let mut a: Vec<Json> = Vec::new();
    let mut i: usize = 0;
    while i < items.len()
        invariant
            i <= items@.len(),
            jv_list(a@) == str_values(crate::text::texts(items@.take(i as int))),
        decreases items@.len() - i,
    {
        let ghost before = a@;
        let c = items[i].clone();
        assert(c@ == items@[i as int]@);
        a.push(Json::Str(c));
        assert(a@.drop_last() =~= before);
        assert(jv(a@.last()) == JsonV::Str(items@[i as int]@));
        assert(crate::text::texts(items@.take(i + 1)).last() == items@[i as int]@);
        assert(crate::text::texts(items@.take(i + 1)).drop_last() =~= crate::text::texts(
            items@.take(i as int),
        ));
        i = i + 1;
    }
    assert(items@.take(items@.len() as int) =~= items@);
    Json::Array(a)
}

} // verus!
