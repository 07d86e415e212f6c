//! JSON-RPC records: the error reply synthesized when an exchange fails, and
//! the reply given locally to `rpc_modules` when that method is overridden.
use vstd::prelude::*;
use std::str::Utf8Error;
use crate::text::same_text;

verus! {

#[verifier::external_type_specification]
#[verifier::external_body]
pub struct ExHyperError(hyper::Error);

#[verifier::external_type_specification]
#[verifier::external_body]
pub struct ExHttpError(hyper::http::Error);

#[verifier::external_type_specification]
#[verifier::external_body]
pub struct ExUtf8Error(Utf8Error);

#[verifier::external_type_specification]
#[verifier::external_body]
pub struct ExJsonValue(serde_json::Value);

/// Why an exchange could not be carried out.
pub enum SnoopError {
    HyperError(hyper::Error),
    HyperHttpError(hyper::http::Error),
    StringConversion(Utf8Error),
}

impl From<hyper::http::Error> for SnoopError {
    fn from(e: hyper::http::Error) -> (r: Self) {
        SnoopError::HyperHttpError(e)
    }
}

impl vstd::std_specs::convert::FromSpecImpl<hyper::http::Error> for SnoopError {
    open spec fn obeys_from_spec() -> bool {
        true
    }

    open spec fn from_spec(e: hyper::http::Error) -> Self {
        SnoopError::HyperHttpError(e)
    }
}

impl From<hyper::Error> for SnoopError {
    fn from(e: hyper::Error) -> (r: Self) {
        SnoopError::HyperError(e)
    }
}

impl vstd::std_specs::convert::FromSpecImpl<hyper::Error> for SnoopError {
    open spec fn obeys_from_spec() -> bool {
        true
    }

    open spec fn from_spec(e: hyper::Error) -> Self {
        SnoopError::HyperError(e)
    }
}

impl From<Utf8Error> for SnoopError {
    fn from(e: Utf8Error) -> (r: Self) {
        SnoopError::StringConversion(e)
    }
}

impl vstd::std_specs::convert::FromSpecImpl<Utf8Error> for SnoopError {
    open spec fn obeys_from_spec() -> bool {
        true
    }

    open spec fn from_spec(e: Utf8Error) -> Self {
        SnoopError::StringConversion(e)
    }
}

/// Relies on the `Debug` impl of `hyper::Error` for a description of it.
#[verifier::external_body]
fn describe_hyper(e: &hyper::Error) -> String {
    format!("{:?}", e)
}

/// Relies on the `Debug` impl of `http::Error` for a description of it.
#[verifier::external_body]
fn describe_http(e: &hyper::http::Error) -> String {
    format!("{:?}", e)
}

/// Relies on the `Debug` impl of `std::str::Utf8Error` for a description of it.
#[verifier::external_body]
fn describe_utf8(e: &Utf8Error) -> String {
    format!("{:?}", e)
}

/// A JSON-RPC call: `{id, jsonrpc, method, params?}`.
pub struct RpcRequest {
    pub id: u64,
    pub jsonrpc: String,
    pub method: String,
    pub params: Option<Vec<serde_json::Value>>,
}

/// The error member of a JSON-RPC error reply.
pub struct RpcError {
    pub code: i32,
    pub message: String,
}

/// A JSON-RPC error reply: `{id, jsonrpc, error: {code, message}}`.
pub struct RpcErrorResponse {
    pub id: u64,
    pub jsonrpc: String,
    pub error: RpcError,
}

/// The code of an internal JSON-RPC error.
pub const INTERNAL_ERROR: i32 = -32603;

/// The words that introduce the description of each kind of failure.
pub open spec fn failure_words(e: SnoopError) -> Seq<char> {
    match e {
        SnoopError::HyperError(_) => ": encountered hyper error: "@,
        SnoopError::HyperHttpError(_) => ": encountered hyper::http error: "@,
        SnoopError::StringConversion(_) => ": error converting to Utf-8: "@,
    }
}

impl RpcErrorResponse {
    /// The internal-error reply for a failure while `prefix` (the phase, such
    /// as "Error processing request"): id 1, version 2.0, code -32603, and a
    /// message of the phase, the kind of failure and its description.
    pub fn from_failure(prefix: &str, e: SnoopError) -> (r: RpcErrorResponse)
        ensures
            r.id == 1,
            r.jsonrpc@ == "2.0"@,
            r.error.code == INTERNAL_ERROR,
            (prefix@ + failure_words(e)).is_prefix_of(r.error.message@),
    {
        let mut message = String::from_str(prefix);
        let ghost head = prefix@ + failure_words(e);
        match &e {
            SnoopError::HyperError(x) => {
                message.append(": encountered hyper error: ");
                let d = describe_hyper(x);
                message.append(d.as_str());
            },
            SnoopError::HyperHttpError(x) => {
                message.append(": encountered hyper::http error: ");
                let d = describe_http(x);
                message.append(d.as_str());
            },
            SnoopError::StringConversion(x) => {
                message.append(": error converting to Utf-8: ");
                let d = describe_utf8(x);
                message.append(d.as_str());
            },
        }
        assert(message@.take(head.len() as int) =~= head);
        RpcErrorResponse {
            id: 1,
            jsonrpc: String::from_str("2.0"),
            error: RpcError { code: INTERNAL_ERROR, message },
        }
    }
}

impl<'a> From<(&'a str, SnoopError)> for RpcErrorResponse {
    fn from(pair: (&'a str, SnoopError)) -> (r: Self) {
        let (prefix, e) = pair;
        RpcErrorResponse::from_failure(prefix, e)
    }
}

impl<'a> vstd::std_specs::convert::FromSpecImpl<(&'a str, SnoopError)> for RpcErrorResponse {
    open spec fn obeys_from_spec() -> bool {
        false
    }

    open spec fn from_spec(pair: (&'a str, SnoopError)) -> Self {
        arbitrary()
    }
}

/// One member of the `rpc_modules` reply: the module, at version 1.0.
pub open spec fn module_entry(m: Seq<char>) -> Seq<char> {
    "    \""@ + m + "\": \"1.0\""@
}

/// The members for each module, in order, separated by `,` and a line feed.
pub open spec fn module_entries(ms: Seq<Seq<char>>) -> Seq<char>
    decreases ms.len(),
{
    if ms.len() == 0 {
        Seq::empty()
    } else if ms.len() == 1 {
        module_entry(ms[0])
    } else {
        module_entries(ms.drop_last()) + ",\n"@ + module_entry(ms.last())
    }
}

/// The pretty-printed reply to `rpc_modules` listing `ms`, with id 1.
pub open spec fn modules_reply(ms: Seq<Seq<char>>) -> Seq<char> {
    "{\n  \"jsonrpc\": \"2.0\",\n  \"result\": {\n"@ + module_entries(ms) + "\n  },\n  \"id\": 1\n}"@
}

/// The characters of each string.
pub open spec fn string_views(v: Seq<String>) -> Seq<Seq<char>> {
    v.map_values(|s: String| s@)
}

/// The body of the reply given locally to `rpc_modules`.
pub fn get_rpc_modules_override(rpc_modules: &Vec<String>) -> (r: String)
    ensures
        r@ == modules_reply(string_views(rpc_modules@)),
{
    let ghost ms = string_views(rpc_modules@);
    let mut r = String::from_str("{\n  \"jsonrpc\": \"2.0\",\n  \"result\": {\n");
    let ghost start = r@;
    let n = rpc_modules.len();
    for i in 0..n
        invariant
            n == rpc_modules@.len(),
            ms == string_views(rpc_modules@),
            r@ == start + module_entries(ms.take(i as int)),
    {
        let ghost before = ms.take(i as int);
        assert(ms.take(i + 1).drop_last() =~= before);
        assert(ms.take(i + 1).last() == rpc_modules@[i as int]@);
        if i > 0 {
            r.append(",\n");
        }
        r.append("    \"");
        r.append(rpc_modules[i].as_str());
        r.append("\": \"1.0\"");
        if i == 0 {
            assert(r@ =~= start + module_entry(rpc_modules@[0]@));
        } else {
            assert(r@ =~= start + (module_entries(before) + ",\n"@ + module_entry(rpc_modules@[i as int]@)));
        }
    }
    assert(ms.take(n as int) =~= ms);
    r.append("\n  },\n  \"id\": 1\n}");
    assert(r@ =~= modules_reply(ms));
    r
}

/// Whether a call to `method` is the one answered locally.
pub fn is_rpc_modules_request(method: Option<&str>) -> (r: bool)
    ensures
        r == (method matches Some(m) && m@ == "rpc_modules"@),
{
    match method {
        Some(m) => same_text(m, "rpc_modules"),
        None => false,
    }
}

} // verus!
