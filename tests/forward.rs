use json_rpc_snoop::forward::{
    rewrite_headers, destination_uri, display_from, display_json, get_hostport, parse_destination, parse_uri, remove_trailing_slashes,
};

#[test]
fn trailing_slashes_removed() {
    assert_eq!(remove_trailing_slashes("http://h:1234///"), "http://h:1234");
    assert_eq!(remove_trailing_slashes("abc"), "abc");
    assert_eq!(remove_trailing_slashes("///"), "");
    assert_eq!(remove_trailing_slashes(""), "");
    assert_eq!(remove_trailing_slashes("a/b/"), "a/b");
}

#[test]
fn parse_uri_accepts_and_rejects() {
    let u = parse_uri("http://h:1234/").unwrap();
    assert_eq!(u.host(), Some("h"));
    assert_eq!(u.port_u16(), Some(1234));
    assert_eq!(u.path(), "/");
    assert!(parse_uri("http://exa mple.com").is_err());
}

#[test]
fn parse_destination_keeps_trailing_slash() {
    let u = parse_destination("http://h:1234/foo/").unwrap();
    assert_eq!(u.path(), "/foo/");
    assert_eq!(parse_uri("http://h:1234/foo/").unwrap().path(), "/foo");
    assert!(parse_destination("http://exa mple.com").is_err());
}

#[test]
fn destination_root_uses_base() {
    assert_eq!(destination_uri("http://h:1234", "/", None), "http://h:1234");
    assert_eq!(destination_uri("http://h:1234/", "/", None), "http://h:1234/");
}

#[test]
fn destination_path_and_query_appended() {
    assert_eq!(destination_uri("http://h:1234/", "/foo", Some("x=1")), "http://h:1234/foo?x=1");
    assert_eq!(destination_uri("http://h:1234//", "/", Some("a=b")), "http://h:1234/?a=b");
    assert_eq!(destination_uri("http://h:1234", "/v1/rpc", None), "http://h:1234/v1/rpc");
}

#[test]
fn hostport_with_and_without_port() {
    assert_eq!(get_hostport(Some("h"), Some("1234")), "h:1234");
    assert_eq!(get_hostport(Some("example.com"), None), "example.com");
    assert_eq!(get_hostport(None, None), "");
}

#[test]
fn outbound_headers_rewritten() {
    let hs = vec![
        ("content-type".to_string(), b"application/json".to_vec()),
        ("accept-encoding".to_string(), b"gzip".to_vec()),
        ("host".to_string(), b"localhost:3000".to_vec()),
        ("x-id".to_string(), vec![0xff, 0x01]),
    ];
    let out = rewrite_headers(&hs, "h:1234");
    assert_eq!(
        out,
        vec![
            ("content-type".to_string(), b"application/json".to_vec()),
            ("host".to_string(), b"h:1234".to_vec()),
            ("x-id".to_string(), vec![0xff, 0x01]),
        ]
    );
    assert!(out.iter().all(|(k, _)| k != "accept-encoding"));
}

#[test]
fn empty_body_shows_null() {
    assert_eq!(display_json(b""), "null");
}

#[test]
fn json_body_is_pretty_printed() {
    assert_eq!(display_json(br#"{"a":1,"b":[2]}"#), "{\n  \"a\": 1,\n  \"b\": [\n    2\n  ]\n}");
}

#[test]
fn non_json_body_shown_raw() {
    assert_eq!(display_json(b"hello there"), "hello there");
    assert_eq!(display_json(b"{\"a\": 1"), "{\"a\": 1");
}

#[test]
fn non_utf8_body_shown_lossily() {
    assert_eq!(display_json(&[b'a', 0xff, b'b']), "a\u{fffd}b");
}

#[test]
fn display_from_prefers_pretty() {
    assert_eq!(display_from("raw".to_string(), true, Some("pretty".to_string())), "pretty");
    assert_eq!(display_from("raw".to_string(), false, Some("pretty".to_string())), "raw");
    assert_eq!(display_from("raw".to_string(), true, None), "raw");
}

#[test]
fn pretty_form_reparses_to_same_value() {
    let bodies = [
        r#"{"id":1,"jsonrpc":"2.0","method":"eth_call","params":[{"to":"0x1"},"latest"]}"#,
        r#"[1,2.5,"x",null,true,{"a":{"b":[]}}]"#,
        r#""just a string""#,
        r#"{"s":"line\nbreak \"quoted\" é"}"#,
    ];
    for b in bodies {
        let shown = display_json(b.as_bytes());
        let parsed: serde_json::Value = serde_json::from_str(b).unwrap();
        let again: serde_json::Value = serde_json::from_str(&shown).unwrap();
        assert_eq!(parsed, again);
    }
}
