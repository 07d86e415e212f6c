//! The text of a log entry: a heading line, the headers when they are
//! logged, and the body in the color of its kind.
use vstd::prelude::*;
use crate::colors::{
    color_like, color_treat, lemma_strip_concat, lemma_strip_plain,
    lemma_treated_stripped, no_escape, palette_fg, strip_escapes, treated, Colors,
};
use crate::number::{decimal_text, push_decimal};
use crate::packet::{packet_label, PacketType};
use crate::text::{framed, lemma_framed_push, same_text};

verus! {

/// A header as logged: its name and its value as shown.
pub type HeaderLine = (String, String);

/// A logged header as `name,value`.
pub open spec fn header_pair(h: HeaderLine) -> Seq<char> {
    h.0@ + ","@ + h.1@
}

/// Each logged header as `name,value`.
pub open spec fn header_pairs(hs: Seq<HeaderLine>) -> Seq<Seq<char>> {
    hs.map_values(|h: HeaderLine| header_pair(h))
}

/// The header block: nothing when headers are not logged or there are none,
/// else a `headers:` line and one indented `(name,value)` line each.
pub open spec fn header_block(log_headers: bool, hs: Seq<HeaderLine>) -> Seq<char> {
    if !log_headers || hs.len() == 0 {
        Seq::empty()
    } else {
        "headers:\n"@ + framed(header_pairs(hs), "    ("@, ")\n"@)
    }
}

/// The message of the heading, left out when empty or the bare root path.
pub open spec fn shown_message(msg: Seq<char>) -> Seq<char> {
    if msg.len() == 0 || msg == "/"@ {
        Seq::empty()
    } else {
        msg
    }
}

/// The status of a response in the heading: ` (status NNN)`.
pub open spec fn status_text(status: Option<u16>) -> Seq<char> {
    match status {
        Some(code) => " (status "@ + decimal_text(code as nat) + ")"@,
        None => Seq::empty(),
    }
}

/// The color of a body: cyan for a request, red for a response that is a
/// JSON-RPC error reply, green for other responses, white when dropped.
pub open spec fn body_color(p: PacketType, is_rpc_error: bool, colors: Colors) -> Seq<char> {
    match p {
        PacketType::Request => colors.cyan@,
        PacketType::Response => if is_rpc_error {
            colors.red@
        } else {
            colors.green@
        },
        _ => colors.white@,
    }
}

/// The heading line of an entry, and the header block.
pub open spec fn entry_head(
    timestamp: Seq<char>,
    headers: Seq<HeaderLine>,
    p: PacketType,
    msg: Seq<char>,
    status: Option<u16>,
    log_headers: bool,
) -> Seq<char> {
    timestamp + " "@ + packet_label(p) + status_text(status) + " "@ + shown_message(msg) + "\n"@
        + header_block(log_headers, headers)
}

/// A whole log entry.
pub open spec fn log_entry(
    timestamp: Seq<char>,
    json: Seq<char>,
    headers: Seq<HeaderLine>,
    p: PacketType,
    msg: Seq<char>,
    status: Option<u16>,
    is_rpc_error: bool,
    log_headers: bool,
    colors: Colors,
) -> Seq<char> {
    entry_head(timestamp, headers, p, msg, status, log_headers) + treated(json, body_color(p, is_rpc_error, colors))
}

fn push_header_block(out: &mut String, headers: &Vec<HeaderLine>, log_headers: bool)
    ensures
        final(out)@ == old(out)@ + header_block(log_headers, headers@),
{
    if !log_headers || headers.len() == 0 {
        assert(old(out)@ + header_block(log_headers, headers@) =~= old(out)@);
        return;
    }
    out.append("headers:\n");
    let ghost start = out@;
    let ghost ps = header_pairs(headers@);
    let n = headers.len();
    for i in 0..n
        invariant
            n == headers@.len(),
            ps == header_pairs(headers@),
            out@ == start + framed(ps.take(i as int), "    ("@, ")\n"@),
    {
        proof {
            lemma_framed_push(ps.take(i as int), ps[i as int], "    ("@, ")\n"@);
            assert(ps.take(i + 1) =~= ps.take(i as int).push(ps[i as int]));
        }
        out.append("    (");
        out.append(headers[i].0.as_str());
        out.append(",");
        out.append(headers[i].1.as_str());
        out.append(")\n");
        assert(out@ =~= start + framed(ps.take(i + 1), "    ("@, ")\n"@));
    }
    assert(ps.take(n as int) =~= ps);
    assert(out@ =~= old(out)@ + header_block(log_headers, headers@));
}

/// The text of a log entry for a body `json` of packet kind `json_type`, at
/// time `timestamp`, with its headers, message and (for responses) status.
pub fn render_log(
    timestamp: &str,
    json: &str,
    headers: &Vec<HeaderLine>,
    json_type: PacketType,
    msg_info: &str,
    status: Option<u16>,
    is_rpc_error: bool,
    log_headers: bool,
    colors: &Colors,
) -> (r: String)
    ensures
        r@ == log_entry(timestamp@, json@, headers@, json_type, msg_info@, status, is_rpc_error, log_headers, *colors),
{
    let mut r = String::from_str(timestamp);
    r.append(" ");
    let label = json_type.to_string();
    r.append(label.as_str());
    if let Some(code) = status {
        r.append(" (status ");
        push_decimal(&mut r, code as u64);
        r.append(")");
    }
    r.append(" ");
    if !(msg_info.is_empty() || same_text(msg_info, "/")) {
        r.append(msg_info);
    }
    r.append("\n");
    push_header_block(&mut r, headers, log_headers);
    let color: &str = match json_type {
        PacketType::Request => colors.cyan,
        PacketType::Response => if is_rpc_error {
            colors.red
        } else {
            colors.green
        },
        _ => colors.white,
    };
    let body = color_treat(String::from_str(json), color);
    r.append(body.as_str());
    assert(r@ =~= log_entry(timestamp@, json@, headers@, json_type, msg_info@, status, is_rpc_error, log_headers, *colors));
    r
}

/// Whether no header name or value holds an escape character.
pub open spec fn headers_plain(hs: Seq<HeaderLine>) -> bool {
    forall|i: int| 0 <= i < hs.len() ==> no_escape((#[trigger] hs[i]).0@) && no_escape(hs[i].1@)
}

proof fn lemma_plain_concat(a: Seq<char>, b: Seq<char>)
    requires
        no_escape(a),
        no_escape(b),
    ensures
        no_escape(a + b),
{
    assert forall|i: int| 0 <= i < (a + b).len() implies #[trigger] (a + b)[i] != '\x1b' by {
        if i < a.len() {
            assert((a + b)[i] == a[i]);
        } else {
            assert((a + b)[i] == b[i - a.len()]);
        }
    }
}

proof fn lemma_decimal_plain(n: nat)
    ensures
        no_escape(decimal_text(n)),
    decreases n,
{
    if n >= 10 {
        lemma_decimal_plain(n / 10);
        let d = ('0' as u8 + (n % 10) as u8) as char;
        assert(no_escape(seq![d]));
        assert(decimal_text(n) == decimal_text(n / 10) + seq![d]);
        lemma_plain_concat(decimal_text(n / 10), seq![d]);
    } else {
        let d = ('0' as u8 + n as u8) as char;
        assert(decimal_text(n) == seq![d]);
    }
}

proof fn lemma_framed_plain(pieces: Seq<Seq<char>>, pre: Seq<char>, post: Seq<char>)
    requires
        no_escape(pre),
        no_escape(post),
        forall|i: int| 0 <= i < pieces.len() ==> no_escape(#[trigger] pieces[i]),
    ensures
        no_escape(framed(pieces, pre, post)),
    decreases pieces.len(),
{
    if pieces.len() == 0 {
        assert(no_escape(Seq::<char>::empty()));
    } else {
        let init = pieces.drop_last();
        assert forall|i: int| 0 <= i < init.len() implies no_escape(#[trigger] init[i]) by {
            assert(init[i] == pieces[i]);
        }
        lemma_framed_plain(init, pre, post);
        assert(no_escape(pieces[pieces.len() - 1]));
        lemma_plain_concat(framed(init, pre, post), pre);
        lemma_plain_concat(framed(init, pre, post) + pre, pieces.last());
        lemma_plain_concat(framed(init, pre, post) + pre + pieces.last(), post);
    }
}

proof fn lemma_head_plain(
    timestamp: Seq<char>,
    headers: Seq<HeaderLine>,
    p: PacketType,
    msg: Seq<char>,
    status: Option<u16>,
    log_headers: bool,
)
    requires
        no_escape(timestamp),
        no_escape(msg),
        headers_plain(headers),
    ensures
        no_escape(entry_head(timestamp, headers, p, msg, status, log_headers)),
{
    reveal_strlit(" ");
    reveal_strlit("\n");
    reveal_strlit(",");
    reveal_strlit("/");
    reveal_strlit(" (status ");
    reveal_strlit(")");
    reveal_strlit("headers:\n");
    reveal_strlit("    (");
    reveal_strlit(")\n");
    reveal_strlit("REQUEST");
    reveal_strlit("RESPONSE");
    reveal_strlit("DROPPED REQUEST");
    reveal_strlit("DROPPED RESPONSE");
    assert(" "@ =~= seq![' ']);
    assert("\n"@ =~= seq!['\n']);
    assert(","@ =~= seq![',']);
    assert(")"@ =~= seq![')']);
    assert(" (status "@ =~= seq![' ', '(', 's', 't', 'a', 't', 'u', 's', ' ']);
    assert("headers:\n"@ =~= seq!['h', 'e', 'a', 'd', 'e', 'r', 's', ':', '\n']);
    assert("    ("@ =~= seq![' ', ' ', ' ', ' ', '(']);
    assert(")\n"@ =~= seq![')', '\n']);
    assert("REQUEST"@ =~= seq!['R', 'E', 'Q', 'U', 'E', 'S', 'T']);
    assert("RESPONSE"@ =~= seq!['R', 'E', 'S', 'P', 'O', 'N', 'S', 'E']);
    assert("DROPPED REQUEST"@ =~= seq!['D', 'R', 'O', 'P', 'P', 'E', 'D', ' ', 'R', 'E', 'Q', 'U', 'E', 'S', 'T']);
    assert("DROPPED RESPONSE"@ =~= seq!['D', 'R', 'O', 'P', 'P', 'E', 'D', ' ', 'R', 'E', 'S', 'P', 'O', 'N', 'S', 'E']);
    let label = packet_label(p);
    assert(no_escape(label));
    let st = status_text(status);
    if let Some(code) = status {
        lemma_decimal_plain(code as nat);
        lemma_plain_concat(" (status "@, decimal_text(code as nat));
        lemma_plain_concat(" (status "@ + decimal_text(code as nat), ")"@);
    }
    assert(no_escape(st));
    let shown = shown_message(msg);
    assert(no_escape(shown));
    let hb = header_block(log_headers, headers);
    if log_headers && headers.len() > 0 {
        let ps = header_pairs(headers);
        assert forall|i: int| 0 <= i < ps.len() implies no_escape(#[trigger] ps[i]) by {
            assert(no_escape(headers[i].0@) && no_escape(headers[i].1@));
            lemma_plain_concat(headers[i].0@, ","@);
            lemma_plain_concat(headers[i].0@ + ","@, headers[i].1@);
        }
        lemma_framed_plain(ps, "    ("@, ")\n"@);
        lemma_plain_concat("headers:\n"@, framed(ps, "    ("@, ")\n"@));
    } else {
        assert(hb =~= Seq::<char>::empty());
    }
    assert(no_escape(hb));
    lemma_plain_concat(timestamp, " "@);
    lemma_plain_concat(timestamp + " "@, label);
    lemma_plain_concat(timestamp + " "@ + label, st);
    lemma_plain_concat(timestamp + " "@ + label + st, " "@);
    lemma_plain_concat(timestamp + " "@ + label + st + " "@, shown);
    lemma_plain_concat(timestamp + " "@ + label + st + " "@ + shown, "\n"@);
    lemma_plain_concat(timestamp + " "@ + label + st + " "@ + shown + "\n"@, hb);
}

/// With color off, a log entry is byte for byte the entry with color on with
/// its escape sequences removed (for texts that hold no escape characters of
/// their own).
pub proof fn lemma_plain_entry_is_stripped(
    timestamp: Seq<char>,
    json: Seq<char>,
    headers: Seq<HeaderLine>,
    p: PacketType,
    msg: Seq<char>,
    status: Option<u16>,
    is_rpc_error: bool,
    log_headers: bool,
    on: Colors,
    off: Colors,
)
    requires
        on.palette(),
        off.plain(),
        no_escape(timestamp),
        no_escape(json),
        no_escape(msg),
        headers_plain(headers),
    ensures
        strip_escapes(log_entry(timestamp, json, headers, p, msg, status, is_rpc_error, log_headers, on))
            == log_entry(timestamp, json, headers, p, msg, status, is_rpc_error, log_headers, off),
{
    let head = entry_head(timestamp, headers, p, msg, status, log_headers);
    lemma_head_plain(timestamp, headers, p, msg, status, log_headers);
    lemma_strip_plain(head);
    let c = body_color(p, is_rpc_error, on);
    assert(c == palette_fg('1') || c == palette_fg('2') || c == palette_fg('6') || c == palette_fg('7'));
    assert(color_like(c)) by {
        if c == palette_fg('1') {
            assert('0' <= '1' <= '9' && c == palette_fg('1'));
        } else if c == palette_fg('2') {
            assert('0' <= '2' <= '9' && c == palette_fg('2'));
        } else if c == palette_fg('6') {
            assert('0' <= '6' <= '9' && c == palette_fg('6'));
        } else {
            assert('0' <= '7' <= '9' && c == palette_fg('7'));
        }
    }
    lemma_treated_stripped(json, c);
    lemma_strip_concat(head, treated(json, c), false);
    assert(body_color(p, is_rpc_error, off) =~= Seq::<char>::empty());
}

} // verus!
