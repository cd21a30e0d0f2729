//! The JSON values the tools read and write, held as plain data.
//!
//! A number keeps what the tools read of it: an unsigned or negative integer
//! exactly, or — for a floating-point number — its printed form, whether it
//! is zero, and its integral value when it has no fractional part.

use vstd::prelude::*;

verus! {

/// What the tools read of a floating-point JSON number.
#[derive(Debug, PartialEq, Clone)]
pub struct FloatFacts {
    /// The number as JSON prints it.
    pub text: String,
    /// The number equals zero.
    pub is_zero: bool,
    /// The number as an `i64` when its fractional part is zero.
    pub whole: Option<i64>,
}

/// A JSON number.
#[derive(Debug, PartialEq, Clone)]
pub enum JsonNumber {
    /// A non-negative integer.
    PosInt(u64),
    /// A negative integer.
    NegInt(i64),
    /// A floating-point number.
    Float(FloatFacts),
}

/// A JSON value. An object holds its members in order; a lookup reads the
/// first member with the key, so a later member with the same key is never
/// seen. The library builds objects with distinct keys.
#[derive(Debug, PartialEq)]
pub enum Json {
    Null,
    Bool(bool),
    Number(JsonNumber),
    String(String),
    Array(Vec<Json>),
    Object(Vec<(String, Json)>),
}

/// The mathematical form of a floating-point number's facts.
pub struct FloatV {
    pub text: Seq<char>,
    pub is_zero: bool,
    pub whole: Option<i64>,
}

/// The mathematical form of a JSON number.
pub enum NumberV {
    PosInt(u64),
    NegInt(i64),
    Float(FloatV),
}

/// The mathematical form of a JSON value.
pub enum JsonV {
    Null,
    Bool(bool),
    Number(NumberV),
    String(Seq<char>),
    Array(Seq<JsonV>),
    Object(Seq<(Seq<char>, JsonV)>),
}

pub open spec fn number_view(n: JsonNumber) -> NumberV {
    match n {
        JsonNumber::PosInt(u) => NumberV::PosInt(u),
        JsonNumber::NegInt(i) => NumberV::NegInt(i),
        JsonNumber::Float(f) => NumberV::Float(FloatV { text: f.text@, is_zero: f.is_zero, whole: f.whole }),
    }
}

pub open spec fn json_view(j: Json) -> JsonV
    decreases j,
{
    match j {
        Json::Null => JsonV::Null,
        Json::Bool(b) => JsonV::Bool(b),
        Json::Number(n) => JsonV::Number(number_view(n)),
        Json::String(s) => JsonV::String(s@),
        Json::Array(v) => JsonV::Array(array_view(v@)),
        Json::Object(m) => JsonV::Object(object_view(m@)),
    }
}

pub open spec fn array_view(s: Seq<Json>) -> Seq<JsonV>
    decreases s,
{
    if s.len() == 0 {
        Seq::empty()
    } else {
        array_view(s.drop_last()).push(json_view(s.last()))
    }
}

pub open spec fn object_view(s: Seq<(String, Json)>) -> Seq<(Seq<char>, JsonV)>
    decreases s,
{
    if s.len() == 0 {
        Seq::empty()
    } else {
        object_view(s.drop_last()).push((s.last().0@, json_view(s.last().1)))
    }
}

impl View for Json {
    type V = JsonV;

    open spec fn view(&self) -> JsonV {
        json_view(*self)
    }
}


/// The value of the first member named `key` in an object's members.
pub open spec fn members_get(m: Seq<(Seq<char>, JsonV)>, key: Seq<char>) -> Option<JsonV>
    decreases m.len(),
{
    if m.len() == 0 {
        None
    } else if m[0].0 == key {
        Some(m[0].1)
    } else {
        members_get(m.drop_first(), key)
    }
}

/// `serde_json::Value::get` with a string key: the member of an object,
/// `None` for any other value.
pub open spec fn json_get(j: JsonV, key: Seq<char>) -> Option<JsonV> {
    match j {
        JsonV::Object(m) => members_get(m, key),
        _ => None,
    }
}

/// The object has a member named `key`.
pub open spec fn has_key(j: JsonV, key: Seq<char>) -> bool {
    json_get(j, key) is Some
}

/// `as_str`: the text of a string value.
pub open spec fn str_of(j: JsonV) -> Option<Seq<char>> {
    match j {
        JsonV::String(s) => Some(s),
        _ => None,
    }
}

/// The text of `key`'s member when it is a string.
pub open spec fn get_str(j: JsonV, key: Seq<char>) -> Option<Seq<char>> {
    match json_get(j, key) {
        Some(v) => str_of(v),
        None => None,
    }
}

/// `as_u64`: a non-negative integer.
pub open spec fn u64_of(j: JsonV) -> Option<u64> {
    match j {
        JsonV::Number(NumberV::PosInt(u)) => Some(u),
        _ => None,
    }
}

/// `as_i64`: an integer that fits in an `i64`.
pub open spec fn i64_of(j: JsonV) -> Option<i64> {
    match j {
        JsonV::Number(NumberV::PosInt(u)) => if u <= i64::MAX {
            Some(u as i64)
        } else {
            None
        },
        JsonV::Number(NumberV::NegInt(i)) => Some(i),
        _ => None,
    }
}

/// `as_bool`.
pub open spec fn bool_of(j: JsonV) -> Option<bool> {
    match j {
        JsonV::Bool(b) => Some(b),
        _ => None,
    }
}

/// The keys of an object's members, in order.
pub open spec fn member_keys(m: Seq<(Seq<char>, JsonV)>) -> Seq<Seq<char>> {
    m.map_values(|e: (Seq<char>, JsonV)| e.0)
}

pub proof fn lemma_array_view_len(s: Seq<Json>)
    ensures
        array_view(s).len() == s.len(),
    decreases s.len(),
{
    if s.len() > 0 {
        lemma_array_view_len(s.drop_last());
    }
}

pub proof fn lemma_array_view_index(s: Seq<Json>, i: int)
    requires
        0 <= i < s.len(),
    ensures
        array_view(s).len() == s.len(),
        array_view(s)[i] == json_view(s[i]),
    decreases s.len(),
{
    lemma_array_view_len(s);
    if i < s.len() - 1 {
        lemma_array_view_index(s.drop_last(), i);
    }
}

pub proof fn lemma_array_view_push(s: Seq<Json>, x: Json)
    ensures
        array_view(s.push(x)) == array_view(s).push(json_view(x)),
{
    assert(s.push(x).drop_last() == s);
}

pub proof fn lemma_object_view_len(s: Seq<(String, Json)>)
    ensures
        object_view(s).len() == s.len(),
    decreases s.len(),
{
    if s.len() > 0 {
        lemma_object_view_len(s.drop_last());
    }
}

pub proof fn lemma_object_view_index(s: Seq<(String, Json)>, i: int)
    requires
        0 <= i < s.len(),
    ensures
        object_view(s).len() == s.len(),
        object_view(s)[i] == (s[i].0@, json_view(s[i].1)),
    decreases s.len(),
{
    lemma_object_view_len(s);
    if i < s.len() - 1 {
        lemma_object_view_index(s.drop_last(), i);
    }
}

pub proof fn lemma_object_view_push(s: Seq<(String, Json)>, k: String, x: Json)
    ensures
        object_view(s.push((k, x))) == object_view(s).push((k@, json_view(x))),
{
    assert(s.push((k, x)).drop_last() == s);
}

/// `members_get` finds the first member with the key.
proof fn lemma_members_get_first(m: Seq<(Seq<char>, JsonV)>, key: Seq<char>, i: int)
    requires
        0 <= i < m.len(),
        m[i].0 == key,
        forall|k: int| 0 <= k < i ==> m[k].0 != key,
    ensures
        members_get(m, key) == Some(m[i].1),
    decreases i,
{
    if i > 0 {
        lemma_members_get_first(m.drop_first(), key, i - 1);
    }
}

pub proof fn lemma_members_get_none(m: Seq<(Seq<char>, JsonV)>, key: Seq<char>)
    requires
        forall|k: int| 0 <= k < m.len() ==> m[k].0 != key,
    ensures
        members_get(m, key) is None,
    decreases m.len(),
{
    if m.len() > 0 {
        lemma_members_get_none(m.drop_first(), key);
    }
}

/// String equality on slices.
pub fn str_eq(a: &str, b: &str) -> (r: bool)
    ensures
        r == (a@ == b@),
{
    let x = a.to_owned();
    let y = b.to_owned();
    x == y
}

/// A string literal or slice as an owned JSON string value.
pub fn json_string(s: &str) -> (r: Json)
    ensures
        r@ == JsonV::String(s@),
{
    Json::String(s.to_owned())
}

impl Json {
    /// `Value::get` with a string key.
    pub fn get(&self, key: &str) -> (r: Option<&Json>)
        ensures
            match r {
                Some(v) => json_get(self@, key@) == Some(v@),
                None => json_get(self@, key@) is None,
            },
    {
        match self {
            Json::Object(m) => {
                let mut i: usize = 0;
                while i < m.len()
                    invariant
                        i <= m.len(),
                        *self == Json::Object(*m),
                        forall|k: int| 0 <= k < i ==> object_view(m@)[k].0 != key@,
                    decreases m.len() - i,
                {
                    proof {
                        lemma_object_view_index(m@, i as int);
                    }
                    if str_eq(m[i].0.as_str(), key) {
                        proof {
                            lemma_members_get_first(object_view(m@), key@, i as int);
                        }
                        return Some(&m[i].1);
                    }
                    i += 1;
                }
                proof {
                    lemma_object_view_len(m@);
                    lemma_members_get_none(object_view(m@), key@);
                }
                None
            },
            _ => None,
        }
    }

    /// `Value::as_str`.
    pub fn as_str(&self) -> (r: Option<&str>)
        ensures
            match r {
                Some(s) => str_of(self@) == Some(s@),
                None => str_of(self@) is None,
            },
    {
        match self {
            Json::String(s) => Some(s.as_str()),
            _ => None,
        }
    }

    /// `Value::is_string`.
    pub fn is_string(&self) -> (r: bool)
        ensures
            r == (self@ is String),
    {
        matches!(self, Json::String(_))
    }

    /// `Value::is_null`.
    pub fn is_null(&self) -> (r: bool)
        ensures
            r == (self@ is Null),
    {
        matches!(self, Json::Null)
    }

    /// `Value::as_u64`.
    pub fn as_u64(&self) -> (r: Option<u64>)
        ensures
            r == u64_of(self@),
    {
        match self {
            Json::Number(JsonNumber::PosInt(u)) => Some(*u),
            _ => None,
        }
    }

    /// `Value::as_i64`.
    pub fn as_i64(&self) -> (r: Option<i64>)
        ensures
            r == i64_of(self@),
    {
        match self {
            Json::Number(JsonNumber::PosInt(u)) => {
                if *u <= 0x7fff_ffff_ffff_ffffu64 {
                    Some(*u as i64)
                } else {
                    None
                }
            },
            Json::Number(JsonNumber::NegInt(i)) => Some(*i),
            _ => None,
        }
    }

    /// `Value::as_bool`.
    pub fn as_bool(&self) -> (r: Option<bool>)
        ensures
            r == bool_of(self@),
    {
        match self {
            Json::Bool(b) => Some(*b),
            _ => None,
        }
    }

    /// The member whose key is `key`, when this is an object holding one.
    pub fn get_str(&self, key: &str) -> (r: Option<&str>)
        ensures
            match r {
                Some(s) => get_str(self@, key@) == Some(s@),
                None => get_str(self@, key@) is None,
            },
    {
        match self.get(key) {
            Some(v) => v.as_str(),
            None => None,
        }
    }

    /// Whether this is an object with a member named `key`.
    pub fn contains_key(&self, key: &str) -> (r: bool)
        ensures
            r == has_key(self@, key@),
    {
        self.get(key).is_some()
    }
}

/// A deep copy of `j`.
pub fn clone_json(j: &Json) -> (r: Json)
    ensures
        r@ == j@,
    decreases j,
{
    match j {
        Json::Null => Json::Null,
        Json::Bool(b) => Json::Bool(*b),
        Json::Number(JsonNumber::PosInt(u)) => Json::Number(JsonNumber::PosInt(*u)),
        Json::Number(JsonNumber::NegInt(i)) => Json::Number(JsonNumber::NegInt(*i)),
        Json::Number(JsonNumber::Float(f)) => Json::Number(
            JsonNumber::Float(FloatFacts { text: f.text.clone(), is_zero: f.is_zero, whole: f.whole }),
        ),
        Json::String(s) => Json::String(s.clone()),
        Json::Array(v) => {
            let mut out: Vec<Json> = Vec::new();
            let mut i: usize = 0;
            while i < v.len()
                invariant
                    i <= v.len(),
                    *j == Json::Array(*v),
                    array_view(out@) == array_view(v@.take(i as int)),
                decreases v.len() - i,
            {
                proof {
                    assert(*j == Json::Array(*v));
                    assert(decreases_to!(*j => (*j)->Array_0));
                    assert(decreases_to!(*v => v@[i as int]));
                }
                let x = clone_json(&v[i]);
                proof {
                    lemma_array_view_push(out@, x);
                    lemma_array_view_push(v@.take(i as int), v@[i as int]);
                    assert(v@.take(i as int + 1) == v@.take(i as int).push(v@[i as int]));
                }
                out.push(x);
                i += 1;
            }
            assert(v@.take(v.len() as int) == v@);
            Json::Array(out)
        },
        Json::Object(m) => {
            let mut out: Vec<(String, Json)> = Vec::new();
            let mut i: usize = 0;
            while i < m.len()
                invariant
                    i <= m.len(),
                    *j == Json::Object(*m),
                    object_view(out@) == object_view(m@.take(i as int)),
                decreases m.len() - i,
            {
                let k = m[i].0.clone();
                proof {
                    assert(*j == Json::Object(*m));
                    assert(decreases_to!(*j => (*j)->Object_0));
                    assert(decreases_to!(m => m@[i as int]));
                    assert(decreases_to!(m@[i as int] => m@[i as int].1));
                }
                let x = clone_json(&m[i].1);
                proof {
                    lemma_object_view_push(out@, k, x);
                    lemma_object_view_push(m@.take(i as int), m@[i as int].0, m@[i as int].1);
                    assert(m@.take(i as int + 1) == m@.take(i as int).push(m@[i as int]));
                }
                out.push((k, x));
                i += 1;
            }
            assert(m@.take(m.len() as int) == m@);
            Json::Object(out)
        },
    }
}


/// Whether two JSON values are equal: the same kind and the same contents,
/// arrays element by element and objects member by member in order.
pub fn json_eq(a: &Json, b: &Json) -> (r: bool)
    ensures
        r == (a@ == b@),
    decreases a,
{
    match (a, b) {
        (Json::Null, Json::Null) => true,
        (Json::Bool(x), Json::Bool(y)) => *x == *y,
        (Json::Number(JsonNumber::PosInt(x)), Json::Number(JsonNumber::PosInt(y))) => *x == *y,
        (Json::Number(JsonNumber::NegInt(x)), Json::Number(JsonNumber::NegInt(y))) => *x == *y,
        (Json::Number(JsonNumber::Float(x)), Json::Number(JsonNumber::Float(y))) => {
            x.text == y.text && x.is_zero == y.is_zero && x.whole == y.whole
        },
        (Json::String(x), Json::String(y)) => *x == *y,
        (Json::Array(x), Json::Array(y)) => {
            proof {
                lemma_array_view_len(x@);
                lemma_array_view_len(y@);
            }
            if x.len() != y.len() {
                return false;
            }
            let mut i: usize = 0;
            while i < x.len()
                invariant
                    i <= x.len() == y.len(),
                    *a == Json::Array(*x),
                    *b == Json::Array(*y),
                    array_view(x@).len() == x@.len(),
                    array_view(y@).len() == y@.len(),
                    forall|k: int| 0 <= k < i ==> array_view(x@)[k] == array_view(y@)[k],
                decreases x.len() - i,
            {
                proof {
                    assert(decreases_to!(*a => (*a)->Array_0));
                    assert(decreases_to!(*x => x@[i as int]));
                    lemma_array_view_index(x@, i as int);
                    lemma_array_view_index(y@, i as int);
                }
                if !json_eq(&x[i], &y[i]) {
                    return false;
                }
                i += 1;
            }
            assert(array_view(x@) =~= array_view(y@));
            true
        },
        (Json::Object(x), Json::Object(y)) => {
            proof {
                lemma_object_view_len(x@);
                lemma_object_view_len(y@);
            }
            if x.len() != y.len() {
                return false;
            }
            let mut i: usize = 0;
            while i < x.len()
                invariant
                    i <= x.len() == y.len(),
                    *a == Json::Object(*x),
                    *b == Json::Object(*y),
                    object_view(x@).len() == x@.len(),
                    object_view(y@).len() == y@.len(),
                    forall|k: int| 0 <= k < i ==> object_view(x@)[k] == object_view(y@)[k],
                decreases x.len() - i,
            {
                proof {
                    assert(decreases_to!(*a => (*a)->Object_0));
                    assert(decreases_to!(*x => x@[i as int]));
                    assert(decreases_to!(x@[i as int] => x@[i as int].1));
                    lemma_object_view_index(x@, i as int);
                    lemma_object_view_index(y@, i as int);
                }
                if !(x[i].0 == y[i].0) {
                    return false;
                }
                if !json_eq(&x[i].1, &y[i].1) {
                    return false;
                }
                i += 1;
            }
            assert(object_view(x@) =~= object_view(y@));
            true
        },
        _ => false,
    }
}

/// A JSON integer as serde_json holds one: non-negative values as unsigned.
pub open spec fn int_json(n: i64) -> JsonV {
    if n >= 0 {
        JsonV::Number(NumberV::PosInt(n as u64))
    } else {
        JsonV::Number(NumberV::NegInt(n))
    }
}

/// A JSON integer.
pub fn json_int(n: i64) -> (r: Json)
    ensures
        r@ == int_json(n),
{
    if n >= 0 {
        Json::Number(JsonNumber::PosInt(n as u64))
    } else {
        Json::Number(JsonNumber::NegInt(n))
    }
}

/// A JSON unsigned integer.
pub fn json_uint(n: u64) -> (r: Json)
    ensures
        r@ == JsonV::Number(NumberV::PosInt(n)),
{
    Json::Number(JsonNumber::PosInt(n))
}

/// Appends the member `key: value` to an object's members.
pub fn push_member(m: &mut Vec<(String, Json)>, key: &str, value: Json)
    ensures
        object_view(final(m)@) == object_view(old(m)@).push((key@, value@)),
{
    let k = key.to_owned();
    proof {
        lemma_object_view_push(m@, k, value);
    }
    m.push((k, value));
}

/// An object's view is the sequence of its members' views.
pub proof fn lemma_object_view_literal(m: Seq<(String, Json)>)
    ensures
        object_view(m) == m.map_values(|e: (String, Json)| (e.0@, json_view(e.1))),
    decreases m.len(),
{
    if m.len() > 0 {
        lemma_object_view_literal(m.drop_last());
        assert(m.map_values(|e: (String, Json)| (e.0@, json_view(e.1))) =~= m.drop_last().map_values(
            |e: (String, Json)| (e.0@, json_view(e.1)),
        ).push((m.last().0@, json_view(m.last().1))));
    } else {
        assert(m.map_values(|e: (String, Json)| (e.0@, json_view(e.1))) =~= Seq::empty());
    }
}

} // verus!
