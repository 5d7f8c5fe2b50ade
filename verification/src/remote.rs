//! What goes to a web service and what comes back.

use vstd::prelude::*;

verus! {

/// A POST request that is ready to be sent.
pub struct Request {
    pub url: String,
    pub authorization: String,
    pub content_type: String,
    pub body: Vec<u8>,
}

/// How a request went.
pub enum Reply {
    /// It could not be sent or was answered with an error; why, in words.
    Failed(String),
    /// It was answered, but the answer could not be read; why, in words.
    Unread(String),
    /// The answer.
    Body(Vec<u8>),
}

/// `a` followed by `b`.
pub(crate) fn join(a: &str, b: &str) -> (r: String)
    ensures
        r@ == a@ + b@,
{
    let mut out = String::from_str(a);
    out.append(b);
    out
}

/// Whether an outcome is exactly this success or failure text.
pub open spec fn outcome(r: Result<String, String>, expected: Result<Seq<char>, Seq<char>>) -> bool {
    match r {
        Ok(t) => expected == Ok::<Seq<char>, Seq<char>>(t@),
        Err(e) => expected == Err::<Seq<char>, Seq<char>>(e@),
    }
}

/// An outcome is one thing: no two expectations that differ are met by one outcome, and two
/// outcomes that meet one expectation say the same.
pub proof fn law_outcome_exact(
    r: Result<String, String>,
    q: Result<String, String>,
    a: Result<Seq<char>, Seq<char>>,
    b: Result<Seq<char>, Seq<char>>,
)
    ensures
        outcome(r, a) && outcome(r, b) ==> a == b,
        outcome(r, a) && outcome(q, a) ==> (r is Ok <==> q is Ok) && (r is Ok ==> r->Ok_0@
            == q->Ok_0@) && (r is Err ==> r->Err_0@ == q->Err_0@),
        outcome(r, a) ==> (r is Ok <==> a is Ok),
        outcome(r, a) && r is Ok ==> r->Ok_0@ == a->Ok_0,
        outcome(r, a) && r is Err ==> r->Err_0@ == a->Err_0,
{
}

} // verus!
