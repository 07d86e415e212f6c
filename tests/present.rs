use json_rpc_snoop::colors::{color_treat, Colors};
use json_rpc_snoop::packet::PacketType;
use json_rpc_snoop::present::render_log;

fn strip_escapes(s: &str) -> String {
    let mut out = String::new();
    let mut inside = false;
    for c in s.chars() {
        if inside {
            inside = c != 'm';
        } else if c == '\x1b' {
            inside = true;
        } else {
            out.push(c);
        }
    }
    out
}

#[test]
fn colors_off_are_empty() {
    let c = Colors::new(true);
    assert_eq!((c.red, c.cyan, c.green, c.white), ("", "", "", ""));
}

#[test]
fn colors_on_are_palette_sequences() {
    let c = Colors::new(false);
    assert_eq!(c.red, "\x1b[38;5;1m");
    assert_eq!(c.green, "\x1b[38;5;2m");
    assert_eq!(c.cyan, "\x1b[38;5;6m");
    assert_eq!(c.white, "\x1b[38;5;7m");
}

#[test]
fn color_treat_wraps_each_line() {
    assert_eq!(color_treat("a\nb".to_string(), "\x1b[38;5;2m"), "\x1b[38;5;2ma\x1b[39m\n\x1b[38;5;2mb\x1b[39m\n");
}

#[test]
fn color_treat_without_color_terminates_lines() {
    assert_eq!(color_treat("a\nb".to_string(), ""), "a\nb\n");
    assert_eq!(color_treat(String::new(), ""), "\n");
}

#[test]
fn request_entry_layout() {
    let c = Colors::new(true);
    let hs = vec![("host".to_string(), "\"h:1\"".to_string())];
    let out = render_log("Jan  1 00:00:00.000 2024", "{}", &hs, PacketType::Request, "/rpc", None, false, true, &c);
    assert_eq!(out, "Jan  1 00:00:00.000 2024 REQUEST /rpc\nheaders:\n    (host,\"h:1\")\n{}\n");
}

#[test]
fn response_entry_layout() {
    let c = Colors::new(true);
    let out = render_log("T", "x\ny", &vec![], PacketType::Response, "", Some(200), false, true, &c);
    assert_eq!(out, "T RESPONSE (status 200) \nx\ny\n");
}

#[test]
fn root_path_and_headers_off_are_left_out() {
    let c = Colors::new(true);
    let hs = vec![("a".to_string(), "\"b\"".to_string())];
    let out = render_log("T", "1", &hs, PacketType::RequestDropped(5), "/", None, false, false, &c);
    assert_eq!(out, "T DROPPED REQUEST \n1\n");
}

#[test]
fn body_colors_by_kind() {
    let c = Colors::new(false);
    let req = render_log("T", "1", &vec![], PacketType::Request, "", None, false, false, &c);
    assert!(req.ends_with("\x1b[38;5;6m1\x1b[39m\n"));
    let err = render_log("T", "1", &vec![], PacketType::Response, "", Some(500), true, false, &c);
    assert!(err.ends_with("\x1b[38;5;1m1\x1b[39m\n"));
    let ok = render_log("T", "1", &vec![], PacketType::Response, "", Some(200), false, false, &c);
    assert!(ok.ends_with("\x1b[38;5;2m1\x1b[39m\n"));
    let dropped = render_log("T", "1", &vec![], PacketType::ResponseDropped(3), "", Some(200), true, false, &c);
    assert!(dropped.ends_with("\x1b[38;5;7m1\x1b[39m\n"));
}

#[test]
fn plain_output_is_colored_output_stripped() {
    let on = Colors::new(false);
    let off = Colors::new(true);
    let hs = vec![("content-type".to_string(), "\"application/json\"".to_string())];
    let kinds = [
        PacketType::Request,
        PacketType::Response,
        PacketType::RequestDropped(1),
        PacketType::ResponseDropped(1),
    ];
    for k in kinds {
        for is_err in [false, true] {
            let a = render_log("Mar  4 10:11:12.131 2024", "{\n  \"a\": 1\n}", &hs, k, "/x", Some(404), is_err, true, &on);
            let b = render_log("Mar  4 10:11:12.131 2024", "{\n  \"a\": 1\n}", &hs, k, "/x", Some(404), is_err, true, &off);
            assert_ne!(a, b);
            assert_eq!(strip_escapes(&a), b);
        }
    }
}
