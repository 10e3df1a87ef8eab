//! Plain-value images of the parts of an OpenAPI document the core reads:
//! parameter locations, servers and their variables, parameter descriptors
//! and response schema entries.

use vstd::prelude::*;
use vstd::string::*;
use crate::schema::SchemaValue;
use crate::text;

verus! {

/// Where a parameter is carried in a request.
#[derive(Debug, Copy, Clone, PartialEq, Eq, Structural)]
pub enum In {
    Query,
    Header,
    Path,
    Cookie,
}

/// A server variable: the allowed values, the default substituted into the
/// server URL template, and a description.
#[derive(Debug, Clone)]
pub struct ServerVariable {
    pub enum_values: Option<Vec<String>>,
    pub default: String,
    pub description: Option<String>,
}

impl ServerVariable {
    /// A variable with the given default and nothing else.
    pub fn new(default: String) -> (r: ServerVariable)
        ensures
            r.default == default,
            r.enum_values is None,
            r.description is None,
    {
        ServerVariable { enum_values: None, default, description: None }
    }
}

/// A server entry of the document: a URL template with named variables.
#[derive(Debug, Clone)]
pub struct Server {
    pub url: String,
    pub description: Option<String>,
    pub variables: Option<Vec<(String, ServerVariable)>>,
}

impl Server {
    /// A server with the given URL and nothing else.
    pub fn new(url: String) -> (r: Server)
        ensures
            r.url == url,
            r.description is None,
            r.variables is None,
    {
        Server { url, description: None, variables: None }
    }
}

/// One parameter of an operation, as the editor reads it: its name, where it
/// is carried, whether it is required, the default value the draft starts
/// from, and its schema for display.
#[derive(Debug)]
pub struct ParameterInfo {
    pub name: String,
    pub location: In,
    pub required: bool,
    pub default_value: Option<String>,
    pub schema: Option<SchemaValue>,
}

/// One response alternative of an operation: a status, a media type and the
/// schema shown for it.
#[derive(Debug)]
pub struct ResponseInfo {
    pub status: String,
    pub media_type: String,
    pub schema: SchemaValue,
}

/// The name wrapped in braces, as it appears in a URL template.
pub open spec fn brace(name: Seq<char>) -> Seq<char> {
    seq!['{'] + name + seq!['}']
}

/// Build the brace-wrapped placeholder of a name.
pub fn brace_name(name: &str) -> (r: String)
    ensures
        r@ == brace(name@),
{
    let mut r = String::from_str("{");
    r.append(name);
    r.append("}");
    proof {
        reveal_strlit("{");
        reveal_strlit("}");
        assert(r@ =~= brace(name@));
    }
    r
}

/// The URL of a server once every variable placeholder is replaced by the
/// variable's default, applied in list order.
pub open spec fn subst_vars(url: Seq<char>, vars: Seq<(String, ServerVariable)>) -> Seq<char>
    decreases vars.len(),
{
    if vars.len() == 0 {
        url
    } else {
        subst_vars(
            text::replace_seq(url, brace(vars[0].0@), vars[0].1.default@),
            vars.skip(1),
        )
    }
}

/// The display URL of a server: variables replaced by their defaults and
/// trailing slashes trimmed.
pub open spec fn default_url_spec(s: Server) -> Seq<char> {
    let filled = match s.variables {
        Option::None => s.url@,
        Option::Some(vs) => subst_vars(s.url@, vs@),
    };
    text::trim_trailing(filled, '/')
}

} // verus!
