//! How a request is answered, and the HTTP reply that comes of it.
use vstd::prelude::*;

verus! {

/// Header pairs as character sequences.
pub open spec fn pairs_view(s: Seq<(String, String)>) -> Seq<(Seq<char>, Seq<char>)> {
    s.map_values(|p: (String, String)| (p.0@, p.1@))
}

/// A file served as it is, with a status and headers in declaration order.
pub struct ResourceResponse {
    pub path: String,
    pub status_code: u16,
    pub headers: Vec<(String, String)>,
}

/// A script whose result is the reply.
pub struct ScriptResponse {
    pub path: String,
}

/// How to answer a matched request.
pub enum ResponseType {
    Resource(ResourceResponse),
    Script(ScriptResponse),
}

pub struct ResourceSpec {
    pub path: Seq<char>,
    pub status_code: u16,
    pub headers: Seq<(Seq<char>, Seq<char>)>,
}

pub enum ResponseSpec {
    Resource(ResourceSpec),
    Script(Seq<char>),
}

impl View for ResourceResponse {
    type V = ResourceSpec;

    open spec fn view(&self) -> ResourceSpec {
        ResourceSpec { path: self.path@, status_code: self.status_code, headers: pairs_view(self.headers@) }
    }
}

impl View for ResponseType {
    type V = ResponseSpec;

    open spec fn view(&self) -> ResponseSpec {
        match self {
            ResponseType::Resource(r) => ResponseSpec::Resource(r@),
            ResponseType::Script(s) => ResponseSpec::Script(s.path@),
        }
    }
}

/// The stand-in descriptor used where a response failed to validate.
pub open spec fn empty_spec() -> ResponseSpec {
    ResponseSpec::Script(Seq::empty())
}

pub fn empty_response() -> (r: ResponseType)
    ensures
        r@ == empty_spec(),
{
    ResponseType::Script(ScriptResponse { path: String::new() })
}

/// A copy of a header list.
pub fn clone_pairs(v: &Vec<(String, String)>) -> (r: Vec<(String, String)>)
    ensures
        pairs_view(r@) == pairs_view(v@),
{
    let mut r: Vec<(String, String)> = Vec::new();
    let mut i: usize = 0;
    while i < v.len()
        invariant
            i <= v@.len(),
            pairs_view(r@) == pairs_view(v@.subrange(0, i as int)),
        decreases v.len() - i,
    {
        let k = v[i].0.clone();
        let x = v[i].1.clone();
        let ghost before = r@;
        r.push((k, x));
        assert(pairs_view(v@.subrange(0, i + 1)) =~= pairs_view(v@.subrange(0, i as int)).push((v@[i as int].0@, v@[i as int].1@)));
        assert(pairs_view(r@) =~= pairs_view(before).push((v@[i as int].0@, v@[i as int].1@)));
        i = i + 1;
    }
    assert(v@.subrange(0, v@.len() as int) =~= v@);
    r
}

} // verus!
