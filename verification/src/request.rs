//! The wire request assembled from a session's draft, as plain values, and
//! the message that carries it to the asynchronous execution path.

use vstd::prelude::*;
use vstd::string::*;

verus! {

/// A fully assembled request: method, URL, query pairs, header pairs and
/// optional body text.
#[derive(Debug)]
pub struct BuiltRequest {
    pub method: String,
    pub url: String,
    pub query: Vec<(String, String)>,
    pub headers: Vec<(String, String)>,
    pub body: Option<String>,
}

/// The views of a list of string pairs.
pub open spec fn pairs_view(ps: Seq<(String, String)>) -> Seq<(Seq<char>, Seq<char>)> {
    ps.map_values(|p: (String, String)| (p.0@, p.1@))
}

/// Spec image of an assembled request.
#[verifier::ext_equal]
pub struct BuiltModel {
    pub method: Seq<char>,
    pub url: Seq<char>,
    pub query: Seq<(Seq<char>, Seq<char>)>,
    pub headers: Seq<(Seq<char>, Seq<char>)>,
    pub body: Option<Seq<char>>,
}

impl View for BuiltRequest {
    type V = BuiltModel;

    open spec fn view(&self) -> BuiltModel {
        BuiltModel {
            method: self.method@,
            url: self.url@,
            query: pairs_view(self.query@),
            headers: pairs_view(self.headers@),
            body: match self.body {
                Option::None => None,
                Option::Some(b) => Some(b@),
            },
        }
    }
}

/// One message to the execution path: the request and the identifier of the
/// operation whose response slot it fills.
#[derive(Debug)]
pub struct Request {
    pub request: BuiltRequest,
    pub operation_id: String,
}

} // verus!
