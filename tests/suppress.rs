use json_rpc_snoop::packet::{PacketType, SuppressType};
use json_rpc_snoop::suppress::{log_plan, parse_suppress, suppress_log, trim_json, SuppressRules};
use json_rpc_snoop::number::{parse_i32, push_decimal};
use std::str::FromStr;

fn rules(methods: &[(&str, i32, SuppressType)], paths: &[(&str, i32, SuppressType)]) -> SuppressRules {
    SuppressRules {
        methods: methods.iter().map(|(k, l, t)| (k.to_string(), (*l, *t))).collect(),
        paths: paths.iter().map(|(k, l, t)| (k.to_string(), (*l, *t))).collect(),
    }
}

#[test]
fn trim_nonpositive_limit_is_empty() {
    assert_eq!(trim_json("a\nb\nc", 0), "");
    assert_eq!(trim_json("a\nb\nc", -1), "");
    assert_eq!(trim_json("", -5), "");
}

#[test]
fn trim_within_limit_is_unchanged() {
    assert_eq!(trim_json("a\nb\nc", 3), "a\nb\nc");
    assert_eq!(trim_json("a\nb\nc", 100), "a\nb\nc");
    assert_eq!(trim_json("", 1), "");
    assert_eq!(trim_json("a\nb", i32::MAX), "a\nb");
}

#[test]
fn trim_even_limit_keeps_both_ends() {
    assert_eq!(trim_json("1\n2\n3\n4\n5\n6", 4), "1\n2\n...\n5\n6\n");
}

#[test]
fn trim_odd_limit_keeps_more_of_the_head() {
    assert_eq!(trim_json("1\n2\n3\n4\n5\n6", 3), "1\n2\n...\n6\n");
    assert_eq!(trim_json("1\n2\n3\n4\n5\n6", 5), "1\n2\n3\n...\n5\n6\n");
}

#[test]
fn trim_limit_one_keeps_first_line_only() {
    assert_eq!(trim_json("1\n2\n3", 1), "1\n");
}

#[test]
fn trim_counts_exact_content_lines() {
    let json = (0..20).map(|i| i.to_string()).collect::<Vec<_>>().join("\n");
    for limit in 2..20 {
        let out = trim_json(&json, limit);
        let lines: Vec<&str> = out.lines().collect();
        assert_eq!(lines.len() as i32, limit + 1);
        assert_eq!(lines.iter().filter(|l| **l == "...").count(), 1);
    }
}

#[test]
fn parse_suppress_defaults() {
    assert_eq!(
        parse_suppress("eth_getBalance").unwrap(),
        ("eth_getBalance".to_string(), (-1, SuppressType::All))
    );
    assert_eq!(parse_suppress("m:").unwrap(), ("m".to_string(), (-1, SuppressType::All)));
    assert_eq!(parse_suppress("m::").unwrap(), ("m".to_string(), (-1, SuppressType::All)));
}

#[test]
fn parse_suppress_lines_and_type() {
    assert_eq!(parse_suppress("m:5").unwrap(), ("m".to_string(), (5, SuppressType::All)));
    assert_eq!(parse_suppress("/p:0:request").unwrap(), ("/p".to_string(), (0, SuppressType::Request)));
    assert_eq!(parse_suppress("m:-3:RESPONSE").unwrap(), ("m".to_string(), (-3, SuppressType::Response)));
    assert_eq!(parse_suppress("m::All").unwrap(), ("m".to_string(), (-1, SuppressType::All)));
    assert_eq!(parse_suppress("m:+7:aLl").unwrap(), ("m".to_string(), (7, SuppressType::All)));
}

#[test]
fn parse_suppress_bad_lines() {
    assert_eq!(
        parse_suppress("m:x:REQUEST").unwrap_err(),
        "Unable to parse 'x' as LINES: invalid digit found in string"
    );
    assert_eq!(
        parse_suppress("m:99999999999").unwrap_err(),
        "Unable to parse '99999999999' as LINES: number too large to fit in target type"
    );
}

#[test]
fn parse_suppress_bad_type() {
    assert_eq!(
        parse_suppress("m:1:both").unwrap_err(),
        "Unable to parse 'both' as [REQUEST|RESPONSE|ALL]"
    );
}

#[test]
fn parse_suppress_too_many_colons() {
    assert_eq!(
        parse_suppress("a:1:all:x").unwrap_err(),
        "Unable to parse argument 'a:1:all:x' as 'PATH[:LINES][:TYPE]': too many colons"
    );
}

#[test]
fn parse_i32_values_and_errors() {
    assert_eq!(parse_i32("0"), Ok(0));
    assert_eq!(parse_i32("-2147483648"), Ok(i32::MIN));
    assert_eq!(parse_i32("2147483647"), Ok(i32::MAX));
    assert_eq!(parse_i32("2147483648").unwrap_err(), "number too large to fit in target type");
    assert_eq!(parse_i32("-2147483649").unwrap_err(), "number too small to fit in target type");
    assert_eq!(parse_i32("-").unwrap_err(), "invalid digit found in string");
    assert_eq!(parse_i32("1a").unwrap_err(), "invalid digit found in string");
    assert_eq!(parse_i32("99999999999x").unwrap_err(), "number too large to fit in target type");
    assert_eq!(parse_i32("-99999999999x").unwrap_err(), "number too small to fit in target type");
    assert_eq!(parse_i32("x99999999999").unwrap_err(), "invalid digit found in string");
    assert_eq!(parse_i32("").unwrap_err(), "cannot parse integer from empty string");
    for s in ["12", "-12", "+12", "007", "x", "", "--1", "+", "-", "99999999999x", "-2147483649", "12345678901234"] {
        match s.parse::<i32>() {
            Ok(v) => assert_eq!(parse_i32(s), Ok(v)),
            Err(e) => assert_eq!(parse_i32(s), Err(e.to_string())),
        }
    }
}

#[test]
fn push_decimal_writes_digits() {
    let mut s = String::from("status ");
    push_decimal(&mut s, 404);
    assert_eq!(s, "status 404");
    let mut z = String::new();
    push_decimal(&mut z, 0);
    assert_eq!(z, "0");
}

#[test]
fn suppress_type_parses_any_case() {
    assert_eq!(SuppressType::parse("request"), Ok(SuppressType::Request));
    assert_eq!(SuppressType::parse("Response"), Ok(SuppressType::Response));
    assert_eq!(SuppressType::parse(""), Ok(SuppressType::All));
    assert_eq!(SuppressType::from_str("all"), Ok(SuppressType::All));
    assert!(SuppressType::parse("none").is_err());
    assert_eq!(parse_suppress("m:2:").unwrap(), ("m".to_string(), (2, SuppressType::All)));
}

#[test]
fn packet_scope_and_label() {
    assert!(PacketType::Request.suppress(SuppressType::Request));
    assert!(!PacketType::Request.suppress(SuppressType::Response));
    assert!(PacketType::Response.suppress(SuppressType::Response));
    assert!(PacketType::Response.suppress(SuppressType::All));
    assert!(!PacketType::RequestDropped(5).suppress(SuppressType::Request));
    assert_eq!(PacketType::Request.to_string(), "REQUEST");
    assert_eq!(PacketType::Response.to_string(), "RESPONSE");
    assert_eq!(PacketType::RequestDropped(1).to_string(), "DROPPED REQUEST");
    assert_eq!(PacketType::ResponseDropped(1).to_string(), "DROPPED RESPONSE");
}

#[test]
fn method_rule_wins_over_path_rule() {
    let r = rules(&[("eth_call", 2, SuppressType::All)], &[("/rpc", -1, SuppressType::All)]);
    let d = suppress_log(PacketType::Request, Some("eth_call"), "/rpc", PacketType::Request, PacketType::Response, &r);
    assert_eq!(d, Some((2, "[method eth_call]".to_string())));
    let d = suppress_log(PacketType::Request, Some("other"), "/rpc", PacketType::Request, PacketType::Response, &r);
    assert_eq!(d, Some((-1, "/rpc".to_string())));
}

#[test]
fn rule_scope_must_match_direction() {
    let r = rules(&[("m", 0, SuppressType::Request)], &[]);
    assert_eq!(
        suppress_log(PacketType::Response, Some("m"), "/", PacketType::Request, PacketType::Response, &r),
        None
    );
    assert_eq!(
        suppress_log(PacketType::Request, Some("m"), "/", PacketType::Request, PacketType::Response, &r),
        Some((0, "[method m]".to_string()))
    );
}

#[test]
fn later_rule_overrides_earlier() {
    let r = rules(&[("m", 1, SuppressType::All), ("m", 3, SuppressType::All)], &[]);
    assert_eq!(
        suppress_log(PacketType::Request, Some("m"), "/", PacketType::Request, PacketType::Response, &r),
        Some((3, "[method m]".to_string()))
    );
}

#[test]
fn dropped_exchange_is_never_suppressed() {
    let r = rules(&[("m", -1, SuppressType::All)], &[("/", -1, SuppressType::All)]);
    assert_eq!(
        suppress_log(PacketType::Request, Some("m"), "/", PacketType::RequestDropped(10), PacketType::Response, &r),
        None
    );
    assert_eq!(
        suppress_log(PacketType::Response, Some("m"), "/", PacketType::Request, PacketType::ResponseDropped(10), &r),
        None
    );
}

#[test]
fn log_plan_applies_budget() {
    assert_eq!(log_plan(PacketType::Request, Some((-1, "x".to_string())), "a\nb", "/p"), None);
    assert_eq!(
        log_plan(PacketType::Request, Some((0, "[method m]".to_string())), "a\nb", "/p"),
        Some((String::new(), "[method m]".to_string()))
    );
    assert_eq!(
        log_plan(PacketType::Response, Some((1, "[method m]".to_string())), "a\nb", "/p"),
        Some(("a\n".to_string(), String::new()))
    );
    assert_eq!(
        log_plan(PacketType::Request, None, "a\nb", "/p"),
        Some(("a\nb".to_string(), "/p".to_string()))
    );
}
