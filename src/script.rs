//! What a script hands back, and the reply made of it.
use vstd::prelude::*;
use crate::reply::{build_reply, error_response, is_error_reply, reply_for, resource_reply, HttpReply};
use crate::json::str_eq;
use crate::response::{pairs_view, ResponseType};

verus! {

/// The `headers` entry of a script's result table.
pub enum ScriptHeaders {
    Absent,
    Table(Vec<(String, String)>),
    Invalid,
}

/// A script's result table, each entry as far as it converts: `status_code`
/// to an unsigned 16-bit integer, `body` to bytes, `headers` to the string
/// pairs it holds.
pub struct ScriptTable {
    pub status_code: Option<u16>,
    pub body: Option<Vec<u8>>,
    pub headers: ScriptHeaders,
}

/// The value a script returns.
pub enum ScriptValue {
    Text(Vec<u8>),
    Table(ScriptTable),
    Other,
}

/// A script's answer.
pub struct ScriptResult {
    pub status_code: u16,
    pub body: Vec<u8>,
    pub headers: Vec<(String, String)>,
}

pub const STATUS_REQUIRED: &'static str = "Table key 'status_code' must be a u16.";
pub const BODY_REQUIRED: &'static str = "Table key 'body' must be able to be converted to a Vec<u8>.";
pub const HEADERS_NOT_TABLE: &'static str = "Table key 'headers' must be a Table";
pub const NOT_RESPONSE: &'static str = "Response must be a Table or String";

/// What a script's return value reads as: status, body and headers, or the
/// error.
pub open spec fn script_spec(value: ScriptValue) -> Result<(u16, Seq<u8>, Seq<(String, String)>), Seq<char>> {
    match value {
        ScriptValue::Text(b) => Ok((200u16, b@, Seq::empty())),
        ScriptValue::Table(t) => if t.status_code is None {
            Err(STATUS_REQUIRED@)
        } else if t.body is None {
            Err(BODY_REQUIRED@)
        } else if t.headers is Invalid {
            Err(HEADERS_NOT_TABLE@)
        } else {
            Ok((
                t.status_code->Some_0,
                t.body->Some_0@,
                match t.headers {
                    ScriptHeaders::Table(h) => h@,
                    _ => Seq::empty(),
                },
            ))
        },
        ScriptValue::Other => Err(NOT_RESPONSE@),
    }
}

/// Reads a script's return value: a string is the body of a 200 reply with no
/// headers; a table needs a status and a body, and may have headers.
pub fn script_result(value: ScriptValue) -> (r: Result<ScriptResult, String>)
    ensures
        match (r, script_spec(value)) {
            (Ok(a), Ok(b)) => a.status_code == b.0 && a.body@ == b.1 && a.headers@ == b.2,
            (Err(a), Err(b)) => a@ == b,
            _ => false,
        },
{
    match value {
        ScriptValue::Text(b) => {
            let headers: Vec<(String, String)> = Vec::new();
            assert(headers@ =~= Seq::empty());
            Ok(ScriptResult { status_code: 200, body: b, headers })
        },
        ScriptValue::Table(t) => {
            let status_code = match t.status_code {
                Some(c) => c,
                None => return Err(String::from_str(STATUS_REQUIRED)),
            };
            let body = match t.body {
                Some(b) => b,
                None => return Err(String::from_str(BODY_REQUIRED)),
            };
            let headers = match t.headers {
                ScriptHeaders::Table(h) => h,
                ScriptHeaders::Absent => {
                    let empty: Vec<(String, String)> = Vec::new();
                    assert(empty@ =~= Seq::empty());
                    empty
                },
                ScriptHeaders::Invalid => return Err(String::from_str(HEADERS_NOT_TABLE)),
            };
            Ok(ScriptResult { status_code, body, headers })
        },
        ScriptValue::Other => Err(String::from_str(NOT_RESPONSE)),
    }
}

/// The reply for a script run: its result when it can be sent, else the
/// error reply.
pub fn script_reply(outcome: Result<ScriptResult, String>) -> (r: HttpReply)
    ensures
        match outcome {
            Ok(s) => reply_for(s.status_code, pairs_view(s.headers@), s.body@, r),
            Err(_) => is_error_reply(r),
        },
{
    match outcome {
        Ok(s) => build_reply(s.status_code, s.headers, s.body),
        Err(_) => error_response(),
    }
}

/// What was fetched for a response: a resource file's contents when they
/// could be read, or the value a script run returned, or why it failed.
pub enum Fetched {
    File(Option<Vec<u8>>),
    Script(Result<ScriptValue, String>),
}

impl ResponseType {
    /// The reply to a request answered by this response, given what was
    /// fetched for it. A failure of any kind gives the error reply.
    pub fn respond(&self, fetched: Fetched) -> (r: HttpReply)
        ensures
            match (*self, fetched) {
                (ResponseType::Resource(res), Fetched::File(Some(b))) => reply_for(res.status_code, res@.headers, b@, r),
                (ResponseType::Script(_), Fetched::Script(Ok(v))) => match script_spec(v) {
                    Ok(x) => reply_for(x.0, pairs_view(x.2), x.1, r),
                    Err(_) => is_error_reply(r),
                },
                _ => is_error_reply(r),
            },
    {
        match (self, fetched) {
            (ResponseType::Resource(res), Fetched::File(contents)) => resource_reply(res, contents),
            (ResponseType::Script(_), Fetched::Script(Ok(v))) => script_reply(script_result(v)),
            _ => error_response(),
        }
    }
}

/// Request headers as a script sees them: a later pair replaces an earlier
/// one of the same name.
pub open spec fn header_map(s: Seq<(String, String)>) -> Map<Seq<char>, Seq<char>>
    decreases s.len(),
{
    if s.len() == 0 {
        Map::empty()
    } else {
        header_map(s.drop_last()).insert(s.last().0@, s.last().1@)
    }
}

pub open spec fn names_unique(s: Seq<(String, String)>) -> bool {
    forall|i: int, j: int| 0 <= i < s.len() && 0 <= j < s.len() && i != j ==> s[i].0@ != s[j].0@
}

pub open spec fn has_name(s: Seq<(String, String)>, k: Seq<char>) -> bool {
    exists|i: int| 0 <= i < s.len() && s[i].0@ == k
}

/// Pairs with distinct names, read as a map.
pub open spec fn pair_map(s: Seq<(String, String)>) -> Map<Seq<char>, Seq<char>> {
    Map::new(
        |k: Seq<char>| has_name(s, k),
        |k: Seq<char>| s[choose|i: int| 0 <= i < s.len() && s[i].0@ == k].1@,
    )
}

proof fn lemma_pair_map_at(s: Seq<(String, String)>, i: int)
    requires
        names_unique(s),
        0 <= i < s.len(),
    ensures
        pair_map(s).contains_key(s[i].0@),
        pair_map(s)[s[i].0@] == s[i].1@,
{
    let k = s[i].0@;
    assert(has_name(s, k));
    let j = choose|j: int| 0 <= j < s.len() && s[j].0@ == k;
    assert(j == i);
}

/// The index of the pair named `name`, if any.
fn find_header(pairs: &Vec<(String, String)>, name: &str) -> (r: Option<usize>)
    ensures
        match r {
            Some(i) => i < pairs@.len() && pairs@[i as int].0@ == name@,
            None => !has_name(pairs@, name@),
        },
{
    let mut i: usize = 0;
    while i < pairs.len()
        invariant
            i <= pairs@.len(),
            forall|j: int| 0 <= j < i ==> pairs@[j].0@ != name@,
        decreases pairs.len() - i,
    {
        if str_eq(pairs[i].0.as_str(), name) {
            return Some(i);
        }
        i = i + 1;
    }
    None
}

/// Sets a header, replacing the value of one with the same name.
fn set_header(pairs: &mut Vec<(String, String)>, name: String, value: String)
    requires
        names_unique(old(pairs)@),
    ensures
        names_unique(final(pairs)@),
        pair_map(final(pairs)@) == pair_map(old(pairs)@).insert(name@, value@),
{
    let ghost k = name@;
    let ghost v = value@;
    let ghost s0 = pairs@;
    if let Some(i) = find_header(pairs, name.as_str()) {
        pairs.set(i, (name, value));
        let ghost s1 = pairs@;
        assert(names_unique(s1));
        assert forall|k2: Seq<char>| #[trigger] has_name(s1, k2) == has_name(s0, k2) by {
            if has_name(s0, k2) {
                let j = choose|j: int| 0 <= j < s0.len() && s0[j].0@ == k2;
                assert(s1[j].0@ == k2);
            }
            if has_name(s1, k2) {
                let j = choose|j: int| 0 <= j < s1.len() && s1[j].0@ == k2;
                assert(s0[j].0@ == k2);
            }
        }
        assert forall|k2: Seq<char>| #[trigger] has_name(s1, k2) && k2 != k implies pair_map(s1)[k2] == pair_map(s0)[k2] by {
            let j = choose|j: int| 0 <= j < s1.len() && s1[j].0@ == k2;
            lemma_pair_map_at(s1, j);
            lemma_pair_map_at(s0, j);
        }
        proof {
            lemma_pair_map_at(s1, i as int);
        }
        assert(pair_map(s1) =~= pair_map(s0).insert(k, v));
        return;
    }
    pairs.push((name, value));
    let ghost s1 = pairs@;
    assert(names_unique(s1));
    assert forall|k2: Seq<char>| #[trigger] has_name(s1, k2) == (has_name(s0, k2) || k2 == k) by {
        if has_name(s0, k2) {
            let j = choose|j: int| 0 <= j < s0.len() && s0[j].0@ == k2;
            assert(s1[j].0@ == k2);
        }
        if k2 == k {
            assert(s1[s0.len() as int].0@ == k2);
        }
    }
    assert forall|k2: Seq<char>| #[trigger] has_name(s0, k2) implies pair_map(s1)[k2] == pair_map(s0)[k2] by {
        let j = choose|j: int| 0 <= j < s0.len() && s0[j].0@ == k2;
        assert(s1[j] == s0[j]);
        lemma_pair_map_at(s1, j);
        lemma_pair_map_at(s0, j);
    }
    proof {
        lemma_pair_map_at(s1, s0.len() as int);
    }
    assert(pair_map(s1) =~= pair_map(s0).insert(k, v));
}

/// The request data handed to a script.
pub struct ScriptRequest {
    pub method: String,
    pub headers: Vec<(String, String)>,
    pub path: String,
    pub query: String,
    pub body: String,
}

/// Builds a script's request data: one header per name, the last value given
/// for it winning, and an empty query where the request has none.
pub fn script_request(
    method: String,
    headers: Vec<(String, String)>,
    path: String,
    query: Option<String>,
    body: String,
) -> (r: ScriptRequest)
    ensures
        r.method@ == method@,
        names_unique(r.headers@),
        pair_map(r.headers@) == header_map(headers@),
        r.path@ == path@,
        r.query@ == match query {
            Some(q) => q@,
            None => Seq::<char>::empty(),
        },
        r.body@ == body@,
{
    let mut merged: Vec<(String, String)> = Vec::new();
    let ghost input = headers@;
    assert(pair_map(merged@) =~= Map::empty());
    let mut rest = headers;
    let mut taken: Vec<(String, String)> = Vec::new();
    // Take the pairs in order: reverse once so that popping yields them first to last.
    while rest.len() > 0
        invariant
            taken@ == input.subrange(rest@.len() as int, input.len() as int).reverse(),
            rest@ == input.subrange(0, rest@.len() as int),
            rest@.len() <= input.len(),
        decreases rest.len(),
    {
        let p = rest.pop().unwrap();
        taken.push(p);
        assert(taken@ =~= input.subrange(rest@.len() as int, input.len() as int).reverse());
    }
    let ghost order = taken@;
    assert(order =~= input.reverse());
    while taken.len() > 0
        invariant
            taken@.len() <= input.len(),
            taken@ == input.reverse().subrange(0, taken@.len() as int),
            names_unique(merged@),
            pair_map(merged@) == header_map(input.subrange(0, input.len() - taken@.len())),
        decreases taken.len(),
    {
        let ghost done = (input.len() - taken@.len()) as int;
        let p = taken.pop().unwrap();
        assert(p == input[done]);
        set_header(&mut merged, p.0, p.1);
        assert(input.subrange(0, done + 1).drop_last() =~= input.subrange(0, done));
    }
    assert(input.subrange(0, input.len() as int) =~= input);
    ScriptRequest {
        method,
        headers: merged,
        path,
        query: match query {
            Some(q) => q,
            None => String::new(),
        },
        body,
    }
}

} // verus!
