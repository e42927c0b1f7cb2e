//! A JSON document as the window manager reports it, with the few reads that
//! the scene-graph walk makes on it.
use vstd::prelude::*;

verus! {

/// A JSON number in decimal parts: `mantissa * 10^exponent`, negated when
/// `positive` is false.
#[derive(Clone, Copy, Debug, PartialEq, Eq)]
pub struct Number {
    pub positive: bool,
    pub mantissa: u64,
    pub exponent: i16,
}

/// A JSON value. An object keeps its members in document order.
#[derive(Debug)]
pub enum Json {
    Null,
    Str(String),
    Num(Number),
    Boolean(bool),
    Array(Vec<Json>),
    Object(Vec<(String, Json)>),
}

/// The text that the json crate prints for a number.
pub uninterp spec fn number_text_of(positive: bool, mantissa: u64, exponent: i16) -> Seq<char>;

/// A string written as a quoted and escaped JSON string literal.
pub uninterp spec fn quoted_of(s: Seq<char>) -> Seq<char>;

/// Relies on json::number::Number::from_parts and its Display impl: the
/// decimal text of a number, which depends on its parts alone.
#[verifier::external_body]
fn number_text(n: Number) -> (r: String)
    ensures
        r@ == number_text_of(n.positive, n.mantissa, n.exponent),
{
    json::number::Number::from_parts(n.positive, n.mantissa, n.exponent).to_string()
}

/// Relies on json::stringify on a `&str`: the string as a JSON string literal,
/// which depends on its characters alone.
#[verifier::external_body]
fn quoted(s: &str) -> (r: String)
    ensures
        r@ == quoted_of(s@),
{
    json::stringify(s)
}

/// The value of the first member named `key`, if any.
pub open spec fn lookup(entries: Seq<(String, Json)>, key: Seq<char>) -> Option<Json>
    decreases entries.len(),
{
    if entries.len() == 0 {
        None
    } else if entries[0].0@ == key {
        Some(entries[0].1)
    } else {
        lookup(entries.subrange(1, entries.len() as int), key)
    }
}

/// The value of the first member named `key`, when `v` is an object that
/// has one.
pub open spec fn member(v: Json, key: Seq<char>) -> Option<Json> {
    match v {
        Json::Object(m) => lookup(m@, key),
        _ => None,
    }
}

/// `v[key]`: the member of an object, or null when `v` is no object or has
/// no such member.
pub open spec fn field(v: Json, key: Seq<char>) -> Json {
    match member(v, key) {
        Some(x) => x,
        None => Json::Null,
    }
}

/// The elements of an array; nothing for any other value.
pub open spec fn members(v: Json) -> Seq<Json> {
    match v {
        Json::Array(a) => a@,
        _ => Seq::empty(),
    }
}

/// Whether `v` is a string equal to `s`.
pub open spec fn is_string(v: Json, s: Seq<char>) -> bool {
    match v {
        Json::Str(t) => t@ == s,
        _ => false,
    }
}

/// Emptiness as the json crate defines it: null, `false`, zero, and an empty
/// string, array or object are empty.
pub open spec fn is_empty_value(v: Json) -> bool {
    match v {
        Json::Null => true,
        Json::Str(s) => s@.len() == 0,
        Json::Num(n) => n.mantissa == 0,
        Json::Boolean(b) => !b,
        Json::Array(a) => a@.len() == 0,
        Json::Object(m) => m@.len() == 0,
    }
}

/// Compact JSON text of a value.
pub open spec fn dump(v: Json) -> Seq<char>
    decreases v,
{
    match v {
        Json::Null => "null"@,
        Json::Str(s) => quoted_of(s@),
        Json::Num(n) => number_text_of(n.positive, n.mantissa, n.exponent),
        Json::Boolean(b) => if b { "true"@ } else { "false"@ },
        Json::Array(a) => "["@ + dump_items(a@) + "]"@,
        Json::Object(m) => "{"@ + dump_entries(m@) + "}"@,
    }
}

/// Compact JSON text of array elements, separated by commas.
pub open spec fn dump_items(s: Seq<Json>) -> Seq<char>
    decreases s,
{
    if s.len() == 0 {
        Seq::empty()
    } else if s.len() == 1 {
        dump(s[0])
    } else {
        dump_items(s.subrange(0, s.len() - 1)) + ","@ + dump(s[s.len() - 1])
    }
}

/// Compact JSON text of object members, separated by commas.
pub open spec fn dump_entries(m: Seq<(String, Json)>) -> Seq<char>
    decreases m,
{
    if m.len() == 0 {
        Seq::empty()
    } else {
        let e = m[m.len() - 1];
        let tail = quoted_of(e.0@) + ":"@ + dump(e.1);
        if m.len() == 1 {
            tail
        } else {
            dump_entries(m.subrange(0, m.len() - 1)) + ","@ + tail
        }
    }
}

/// The text of a value as json's `to_string` gives it: a string as it
/// stands, anything else as compact JSON.
pub open spec fn text(v: Json) -> Seq<char> {
    match v {
        Json::Str(s) => s@,
        _ => dump(v),
    }
}

proof fn lemma_lookup_skip(m: Seq<(String, Json)>, key: Seq<char>, i: int)
    requires
        0 <= i <= m.len(),
        forall|j: int| 0 <= j < i ==> m[j].0@ != key,
    ensures
        lookup(m, key) == lookup(m.subrange(i, m.len() as int), key),
    decreases i,
{
    if i == 0 {
        assert(m.subrange(0, m.len() as int) =~= m);
    } else {
        let rest = m.subrange(1, m.len() as int);
        lemma_lookup_skip(rest, key, i - 1);
        assert(rest.subrange(i - 1, rest.len() as int) =~= m.subrange(i, m.len() as int));
    }
}

impl Json {
    /// The value of the first member named `key`, when `self` is an object
    /// that has one.
    pub fn get(&self, key: &str) -> (r: Option<&Json>)
        ensures
            match r {
                Some(x) => member(*self, key@) == Some(*x),
                None => member(*self, key@) is None,
            },
    {
        match self {
            Json::Object(m) => {
                let wanted = String::from_str(key);
                let mut i: usize = 0;
                while i < m.len()
                    invariant
                        0 <= i <= m.len(),
                        wanted@ == key@,
                        *self == Json::Object(*m),
                        forall|j: int| 0 <= j < i ==> m@[j].0@ != key@,
                    decreases m.len() - i,
                {
                    if m[i].0 == wanted {
                        proof {
                            lemma_lookup_skip(m@, key@, i as int);
                            assert(m@.subrange(i as int, m.len() as int)[0] == m@[i as int]);
                        }
                        return Some(&m[i].1);
                    }
                    i += 1;
                }
                proof {
                    lemma_lookup_skip(m@, key@, i as int);
                }
                None
            },
            _ => None,
        }
    }

    /// Whether `self` is a string equal to `s`.
    pub fn is_str(&self, s: &str) -> (r: bool)
        ensures
            r == is_string(*self, s@),
    {
        match self {
            Json::Str(t) => *t == String::from_str(s),
            _ => false,
        }
    }

    /// Emptiness as the json crate defines it.
    pub fn is_empty(&self) -> (r: bool)
        ensures
            r == is_empty_value(*self),
    {
        match self {
            Json::Null => true,
            Json::Str(s) => s.as_str().unicode_len() == 0,
            Json::Num(n) => n.mantissa == 0,
            Json::Boolean(b) => !*b,
            Json::Array(a) => a.len() == 0,
            Json::Object(m) => m.len() == 0,
        }
    }

    /// Compact JSON text of the value.
    pub fn dump(&self) -> (r: String)
        ensures
            r@ == dump(*self),
        decreases *self,
    {
        match self {
            Json::Null => String::from_str("null"),
            Json::Str(s) => quoted(s.as_str()),
            Json::Num(n) => number_text(*n),
            Json::Boolean(b) => if *b {
                String::from_str("true")
            } else {
                String::from_str("false")
            },
            Json::Array(a) => {
                let mut out = String::from_str("[");
                let mut i: usize = 0;
                while i < a.len()
                    invariant
                        0 <= i <= a.len(),
                        out@ == "["@ + dump_items(a@.subrange(0, i as int)),
                        *self == Json::Array(*a),
                    decreases a.len() - i,
                {
                    if i > 0 {
                        out.append(",");
                    }
                    proof {
                        vstd::std_specs::vec::axiom_vec_index_decreases(*a, i as int);
                        assert(decreases_to!(*self => self->Array_0));
                    }
                    let item = a[i].dump();
                    out.append(item.as_str());
                    proof {
                        assert(a@.subrange(0, i + 1).subrange(0, i as int) =~= a@.subrange(0, i as int));
                    }
                    i += 1;
                }
                assert(a@.subrange(0, a.len() as int) =~= a@);
                out.append("]");
                out
            },
            Json::Object(m) => {
                let mut out = String::from_str("{");
                let mut i: usize = 0;
                while i < m.len()
                    invariant
                        0 <= i <= m.len(),
                        out@ == "{"@ + dump_entries(m@.subrange(0, i as int)),
                        *self == Json::Object(*m),
                    decreases m.len() - i,
                {
                    if i > 0 {
                        out.append(",");
                    }
                    let key = quoted(m[i].0.as_str());
                    out.append(key.as_str());
                    out.append(":");
                    proof {
                        vstd::std_specs::vec::axiom_vec_index_decreases(*m, i as int);
                        assert(decreases_to!(*self => self->Object_0));
                        assert(decreases_to!(m[i as int] => m[i as int].1));
                    }
                    let item = m[i].1.dump();
                    out.append(item.as_str());
                    proof {
                        assert(m@.subrange(0, i + 1).subrange(0, i as int) =~= m@.subrange(0, i as int));
                    }
                    i += 1;
                }
                assert(m@.subrange(0, m.len() as int) =~= m@);
                out.append("}");
                out
            },
        }
    }

    /// The text of the value as json's `to_string` gives it: a string as it
    /// stands, anything else as compact JSON.
    pub fn to_text(&self) -> (r: String)
        ensures
            r@ == text(*self),
    {
        match self {
            Json::Str(s) => s.clone(),
            _ => self.dump(),
        }
    }
}

} // verus!
