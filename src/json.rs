//! The document tree a configuration is read from.
use vstd::prelude::*;

verus! {

/// A number of the document: its value when it is a non-negative integer
/// that fits in 64 bits, and its text as the document's serializer writes it.
pub struct JsonNumber {
    pub as_u64: Option<u64>,
    pub text: String,
}

/// An array node, with its compact text.
pub struct JsonArray {
    pub items: Vec<Json>,
    pub text: String,
}

/// An object node: its members in order, and its compact text.
pub struct JsonObject {
    pub entries: Vec<(String, Json)>,
    pub text: String,
}

/// One node of an untyped document tree.
pub enum Json {
    Null,
    Bool(bool),
    Number(JsonNumber),
    Str(String),
    Array(JsonArray),
    Object(JsonObject),
}

/// The value of the first member named `key`, if any.
pub open spec fn lookup(entries: Seq<(String, Json)>, key: Seq<char>) -> Option<Json>
    decreases entries.len(),
{
    if entries.len() == 0 {
        None
    } else if entries[0].0@ == key {
        Some(entries[0].1)
    } else {
        lookup(entries.drop_first(), key)
    }
}

/// What `v[key]` reads: the member's value, or `Null` when `v` is no object
/// or has no such member.
pub open spec fn field(v: Json, key: Seq<char>) -> Json {
    match v {
        Json::Object(o) => match lookup(o.entries@, key) {
            Some(x) => x,
            None => Json::Null,
        },
        _ => Json::Null,
    }
}

/// Equality of two strings, character by character.
pub fn str_eq(a: &str, b: &str) -> (r: bool)
    ensures
        r == (a@ == b@),
{
    let n = a.unicode_len();
    if n != b.unicode_len() {
        return false;
    }
    let mut i: usize = 0;
    while i < n
        invariant
            n == a@.len(),
            n == b@.len(),
            i <= n,
            a@.subrange(0, i as int) == b@.subrange(0, i as int),
        decreases n - i,
    {
        if a.get_char(i) != b.get_char(i) {
            return false;
        }
        assert(a@.subrange(0, i + 1) =~= a@.subrange(0, i as int).push(a@[i as int]));
        assert(b@.subrange(0, i + 1) =~= b@.subrange(0, i as int).push(b@[i as int]));
        i = i + 1;
    }
    assert(a@ =~= a@.subrange(0, n as int));
    assert(b@ =~= b@.subrange(0, n as int));
    true
}

/// The member named `key` of `v`, if `v` is an object that has one.
pub fn member<'a>(v: &'a Json, key: &str) -> (r: Option<&'a Json>)
    ensures
        match r {
            Some(x) => *x == field(*v, key@) && v is Object,
            None => field(*v, key@) is Null,
        },
{
    match v {
        Json::Object(o) => {
            let mut i: usize = 0;
            assert(o.entries@.subrange(0, o.entries@.len() as int) =~= o.entries@);
            while i < o.entries.len()
                invariant
                    *v == Json::Object(*o),
                    i <= o.entries@.len(),
                    lookup(o.entries@, key@) == lookup(o.entries@.subrange(i as int, o.entries@.len() as int), key@),
                decreases o.entries.len() - i,
            {
                let ghost rest = o.entries@.subrange(i as int, o.entries@.len() as int);
                assert(rest[0] == o.entries@[i as int]);
                if str_eq(o.entries[i].0.as_str(), key) {
                    assert(lookup(rest, key@) == Some(rest[0].1));
                    return Some(&o.entries[i].1);
                }
                assert(rest.drop_first() =~= o.entries@.subrange(i + 1, o.entries@.len() as int));
                i = i + 1;
            }
            None
        },
        _ => None,
    }
}

} // verus!
