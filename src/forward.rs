//! Building the outbound request: its destination, its headers, and the
//! text under which a body is shown in the log.
use vstd::prelude::*;
use vstd::string::StringSliceAdditionalSpecFns;
use vstd::utf8::{decode_utf8, valid_utf8};
use hyper::http::uri::InvalidUri;
use hyper::Uri;
use crate::text::{chars_of, same_text};

verus! {

#[verifier::external_type_specification]
#[verifier::external_body]
pub struct ExUri(Uri);

#[verifier::external_type_specification]
#[verifier::external_body]
pub struct ExInvalidUri(InvalidUri);

/// `s` without the slashes at its end.
pub open spec fn without_trailing_slashes(s: Seq<char>) -> Seq<char>
    decreases s.len(),
{
    if s.len() > 0 && s.last() == '/' {
        without_trailing_slashes(s.drop_last())
    } else {
        s
    }
}

/// Removes the slashes at the end of `s`.
pub fn remove_trailing_slashes(s: &str) -> (r: &str)
    ensures
        r@ == without_trailing_slashes(s@),
{
    let cs = chars_of(s);
    let mut k = cs.len();
    assert(s@.take(k as int) =~= s@);
    while k > 0 && cs[k - 1] == '/'
        invariant
            k <= cs@.len(),
            cs@ == s@,
            without_trailing_slashes(s@.take(k as int)) == without_trailing_slashes(s@),
        decreases k,
    {
        assert(s@.take(k as int).drop_last() =~= s@.take(k - 1));
        k = k - 1;
    }
    s.substring_char(0, k)
}

/// Whether `http::Uri` accepts the text as a URI.
pub uninterp spec fn uri_parses(s: Seq<char>) -> bool;

/// Relies on `<http::Uri as FromStr>::from_str`, which parses the text's
/// bytes alone.
#[verifier::external_body]
fn uri_from_str(s: &str) -> (r: Result<Uri, InvalidUri>)
    ensures
        r is Ok <==> uri_parses(s@),
{
    s.parse::<Uri>()
}

/// Reads a destination URI, ignoring slashes at its end.
pub fn parse_uri(s: &str) -> (r: Result<Uri, InvalidUri>)
    ensures
        r is Ok <==> uri_parses(without_trailing_slashes(s@)),
{
    uri_from_str(remove_trailing_slashes(s))
}

/// Reads a composed destination URI as it stands.
pub fn parse_destination(s: &str) -> (r: Result<Uri, InvalidUri>)
    ensures
        r is Ok <==> uri_parses(s@),
{
    uri_from_str(s)
}

/// Where an inbound request for `path` (and `query`) goes: to `base` itself
/// for the bare root, else to `base` without its trailing slashes followed by
/// the path and the query.
pub open spec fn destination(base: Seq<char>, path: Seq<char>, query: Option<Seq<char>>) -> Seq<char> {
    if path == seq!['/'] && query is None {
        base
    } else {
        without_trailing_slashes(base) + path + match query {
            Some(q) => seq!['?'] + q,
            None => Seq::empty(),
        }
    }
}

/// The destination of an inbound request; see `destination`.
pub fn destination_uri(base: &str, path: &str, query: Option<&str>) -> (r: String)
    ensures
        r@ == destination(base@, path@, match query { Some(q) => Some(q@), None => None }),
{
    proof {
        reveal_strlit("/");
        reveal_strlit("?");
    }
    let root = same_text(path, "/");
    assert("/"@ =~= seq!['/']);
    assert(root == (path@ == seq!['/']));
    if root && query.is_none() {
        return String::from_str(base);
    }
    let mut r = String::from_str(remove_trailing_slashes(base));
    r.append(path);
    if let Some(q) = query {
        r.append("?");
        r.append(q);
        assert(r@ =~= without_trailing_slashes(base@) + path@ + (seq!['?'] + q@));
    } else {
        assert(r@ =~= without_trailing_slashes(base@) + path@ + Seq::<char>::empty());
    }
    r
}

/// The `host` header for a destination: its host, then `:` and its port
/// when it has one.
pub open spec fn host_port(host: Option<Seq<char>>, port: Option<Seq<char>>) -> Seq<char> {
    (match host {
        Some(h) => h,
        None => Seq::empty(),
    }) + match port {
        Some(p) => seq![':'] + p,
        None => Seq::empty(),
    }
}

/// The `host` header for a destination with this host and port.
pub fn get_hostport(host: Option<&str>, port: Option<&str>) -> (r: String)
    ensures
        r@ == host_port(
            match host { Some(h) => Some(h@), None => None },
            match port { Some(p) => Some(p@), None => None },
        ),
{
    proof {
        reveal_strlit(":");
    }
    let mut r = String::new();
    if let Some(h) = host {
        r.append(h);
    }
    if let Some(p) = port {
        r.append(":");
        r.append(p);
    }
    r
}

/// A header: its (lower-case) name and its value's bytes.
pub type Header = (String, Vec<u8>);

/// A header as a name and the bytes of its value.
pub open spec fn header_view(h: Header) -> (Seq<char>, Seq<u8>) {
    (h.0@, h.1@)
}

/// Each header as a name and the bytes of its value.
pub open spec fn headers_view(hs: Seq<Header>) -> Seq<(Seq<char>, Seq<u8>)> {
    hs.map_values(|h: Header| header_view(h))
}

/// The headers sent upstream: the inbound ones in order, without
/// `accept-encoding` (so that the reply comes uncompressed), with `host` set
/// to the destination's.
pub open spec fn outbound_headers(hs: Seq<(Seq<char>, Seq<u8>)>, host: Seq<u8>) -> Seq<(Seq<char>, Seq<u8>)>
    decreases hs.len(),
{
    if hs.len() == 0 {
        Seq::empty()
    } else {
        let init = outbound_headers(hs.drop_last(), host);
        let (name, value) = hs.last();
        if name == "accept-encoding"@ {
            init
        } else if name == "host"@ {
            init.push((name, host))
        } else {
            init.push((name, value))
        }
    }
}

/// The headers to send upstream; see `outbound_headers`.
pub fn rewrite_headers(headers: &Vec<Header>, host: &str) -> (r: Vec<Header>)
    ensures
        headers_view(r@) == outbound_headers(headers_view(headers@), host.spec_bytes()),
{
    let host_bytes = host.as_bytes_vec();
    let mut r: Vec<Header> = Vec::new();
    let n = headers.len();
    for i in 0..n
        invariant
            n == headers@.len(),
            host_bytes@ == host.spec_bytes(),
            headers_view(r@) == outbound_headers(headers_view(headers@.take(i as int)), host.spec_bytes()),
    {
        let ghost before = headers_view(r@);
        assert(headers_view(headers@.take(i + 1)).drop_last() =~= headers_view(headers@.take(i as int)));
        assert(headers_view(headers@.take(i + 1)).last() == header_view(headers@[i as int]));
        let name = &headers[i].0;
        if same_text(name.as_str(), "accept-encoding") {
        } else if same_text(name.as_str(), "host") {
            r.push((name.clone(), host_bytes.clone()));
            assert(headers_view(r@) =~= before.push((name@, host.spec_bytes())));
        } else {
            r.push((name.clone(), headers[i].1.clone()));
            assert(headers_view(r@) =~= before.push(header_view(headers@[i as int])));
        }
    }
    assert(headers@.take(n as int) =~= headers@);
    r
}

/// No header sent upstream is `accept-encoding`, and every `host` header
/// carries the destination's host and port.
pub proof fn lemma_outbound_headers(hs: Seq<(Seq<char>, Seq<u8>)>, host: Seq<u8>)
    ensures
        forall|i: int| 0 <= i < outbound_headers(hs, host).len()
            ==> (#[trigger] outbound_headers(hs, host)[i]).0 != "accept-encoding"@,
        forall|i: int| 0 <= i < outbound_headers(hs, host).len()
            && (#[trigger] outbound_headers(hs, host)[i]).0 == "host"@
            ==> outbound_headers(hs, host)[i].1 == host,
    decreases hs.len(),
{
    if hs.len() > 0 {
        lemma_outbound_headers(hs.drop_last(), host);
        let init = outbound_headers(hs.drop_last(), host);
        let out = outbound_headers(hs, host);
        assert forall|i: int| 0 <= i < out.len() implies (#[trigger] out[i]).0 != "accept-encoding"@
            && (out[i].0 == "host"@ ==> out[i].1 == host) by {
            if i < init.len() {
                assert(out[i] == init[i]);
            }
        }
    }
}

/// What `jsonxf::pretty_print` makes of a text: its pretty-printed form, or
/// nothing when the text is not JSON.
pub uninterp spec fn pretty_of(s: Seq<char>) -> Option<Seq<char>>;

/// Relies on `jsonxf::pretty_print`, a function of the text alone; its error
/// message is dropped.
#[verifier::external_body]
fn pretty_print(s: &str) -> (r: Option<String>)
    ensures
        r matches Some(p) ==> pretty_of(s@) == Some(p@),
        r is None ==> pretty_of(s@) is None,
{
    jsonxf::pretty_print(s).ok()
}

/// Whether `serde_json` reads the text as one JSON value.
pub uninterp spec fn json_text(s: Seq<char>) -> bool;

/// Relies on `serde_json::from_str::<serde_json::Value>`, whose success
/// depends on the text alone.
#[verifier::external_body]
fn is_json(s: &str) -> (r: bool)
    ensures
        r == json_text(s@),
{
    serde_json::from_str::<serde_json::Value>(s).is_ok()
}

/// What `String::from_utf8_lossy` makes of some bytes.
pub uninterp spec fn lossy_text_of(b: Seq<u8>) -> Seq<char>;

/// Relies on `String::from_utf8_lossy`: the bytes decoded, invalid sequences
/// replaced; valid UTF-8 is decoded as it is.
#[verifier::external_body]
fn lossy_text(b: &[u8]) -> (r: String)
    ensures
        r@ == lossy_text_of(b@),
        valid_utf8(b@) ==> r@ == decode_utf8(b@),
{
    String::from_utf8_lossy(b).into_owned()
}

/// The text shown for a body whose decoded text is `text`: its pretty form
/// when the text is JSON and the formatter gives one, else the text itself.
pub open spec fn shown(text: Seq<char>, valid: bool, pretty: Option<Seq<char>>) -> Seq<char> {
    match pretty {
        Some(p) => if valid {
            p
        } else {
            text
        },
        None => text,
    }
}

/// The text shown for a body: `null` for an empty one, else its text
/// pretty-printed when it is JSON, else its text as it is.
pub open spec fn body_display(b: Seq<u8>) -> Seq<char> {
    if b.len() == 0 {
        "null"@
    } else {
        let text = lossy_text_of(b);
        shown(text, json_text(text), pretty_of(text))
    }
}

/// Picks the shown text from a body's text, whether it is JSON, and its
/// pretty form, if any.
pub fn display_from(text: String, valid: bool, pretty: Option<String>) -> (r: String)
    ensures
        r@ == shown(text@, valid, match pretty { Some(p) => Some(p@), None => None }),
{
    match pretty {
        Some(p) => if valid {
            p
        } else {
            text
        },
        None => text,
    }
}

/// The text shown in the log for a request or response body.
pub fn display_json(body: &[u8]) -> (r: String)
    ensures
        r@ == body_display(body@),
{
    if body.len() == 0 {
        return String::from_str("null");
    }
    let text = lossy_text(body);
    if !is_json(text.as_str()) {
        return text;
    }
    let pretty = pretty_print(text.as_str());
    display_from(text, true, pretty)
}

} // verus!
