//! Terminal colors: the escape sequences used for each kind of message, and
//! the wrapping of a multi-line text so that each line carries its color.
use vstd::prelude::*;
use termion::color;
use crate::text::{chars_of, framed, lemma_framed_push, lines_of, push_char, push_chars, split_chars, views};

verus! {

/// A Select Graphic Rendition sequence: escape, `[`, the code, `m`.
pub open spec fn sgr(code: Seq<char>) -> Seq<char> {
    seq!['\x1b', '['] + code + seq!['m']
}

/// The sequence that selects palette color `n` (a single digit) for the
/// foreground.
pub open spec fn palette_fg(n: char) -> Seq<char> {
    sgr(seq!['3', '8', ';', '5', ';', n])
}

/// The sequence that resets the foreground color.
pub open spec fn reset_fg() -> Seq<char> {
    sgr(seq!['3', '9'])
}

/// Relies on `termion::color::Red::fg_str`: `csi!("38;5;", "1", "m")`.
#[verifier::external_body]
fn red_fg() -> (r: &'static str)
    ensures
        r@ == palette_fg('1'),
{
    color::Red.fg_str()
}

/// Relies on `termion::color::Green::fg_str`: `csi!("38;5;", "2", "m")`.
#[verifier::external_body]
fn green_fg() -> (r: &'static str)
    ensures
        r@ == palette_fg('2'),
{
    color::Green.fg_str()
}

/// Relies on `termion::color::Cyan::fg_str`: `csi!("38;5;", "6", "m")`.
#[verifier::external_body]
fn cyan_fg() -> (r: &'static str)
    ensures
        r@ == palette_fg('6'),
{
    color::Cyan.fg_str()
}

/// Relies on `termion::color::White::fg_str`: `csi!("38;5;", "7", "m")`.
#[verifier::external_body]
fn white_fg() -> (r: &'static str)
    ensures
        r@ == palette_fg('7'),
{
    color::White.fg_str()
}

/// Relies on `termion::color::Reset::fg_str`: `csi!("39m")`.
#[verifier::external_body]
fn reset_fg_str() -> (r: &'static str)
    ensures
        r@ == reset_fg(),
{
    color::Reset.fg_str()
}

/// The colors of the log: red for errors, cyan for requests, green for
/// responses, white for dropped packets; all empty when color is off.
pub struct Colors {
    pub red: &'static str,
    pub cyan: &'static str,
    pub green: &'static str,
    pub white: &'static str,
}

impl Colors {
    /// Whether every color is empty.
    pub open spec fn plain(&self) -> bool {
        &&& self.red@.len() == 0
        &&& self.cyan@.len() == 0
        &&& self.green@.len() == 0
        &&& self.white@.len() == 0
    }

    /// Whether the colors are termion's palette colors 1, 6, 2 and 7.
    pub open spec fn palette(&self) -> bool {
        &&& self.red@ == palette_fg('1')
        &&& self.cyan@ == palette_fg('6')
        &&& self.green@ == palette_fg('2')
        &&& self.white@ == palette_fg('7')
    }

    pub fn new(disable_color: bool) -> (r: Colors)
        ensures
            disable_color ==> r.plain(),
            !disable_color ==> r.palette(),
    {
        if disable_color {
            proof {
                reveal_strlit("");
            }
            Colors { red: "", cyan: "", green: "", white: "" }
        } else {
            Colors { red: red_fg(), cyan: cyan_fg(), green: green_fg(), white: white_fg() }
        }
    }
}

/// What follows each line wrapped in `color`: the reset sequence (none when
/// the color is empty) and a line feed.
pub open spec fn line_end(color: Seq<char>) -> Seq<char> {
    if color.len() == 0 {
        seq!['\n']
    } else {
        reset_fg().push('\n')
    }
}

/// `s` with each of its lines wrapped: the color, the line, the reset, a
/// line feed. Viewers that show lines one by one keep the color of each.
pub open spec fn treated(s: Seq<char>, color: Seq<char>) -> Seq<char> {
    framed(lines_of(s), color, line_end(color))
}

/// Wraps each line of `multi_line_string` in `color`.
pub fn color_treat(multi_line_string: String, color: &str) -> (r: String)
    ensures
        r@ == treated(multi_line_string@, color@),
{
    proof {
        reveal_strlit("");
    }
    let reset: &str = if color.is_empty() { "" } else { reset_fg_str() };
    let cs = chars_of(multi_line_string.as_str());
    let lines = split_chars(&cs, '\n');
    let ghost ls = views(lines@);
    let ghost end = line_end(color@);
    let mut r = String::new();
    let n = lines.len();
    for i in 0..n
        invariant
            n == lines@.len(),
            ls == views(lines@),
            end == reset@.push('\n'),
            r@ == framed(ls.take(i as int), color@, end),
    {
        proof {
            lemma_framed_push(ls.take(i as int), ls[i as int], color@, end);
            assert(ls.take(i + 1) =~= ls.take(i as int).push(ls[i as int]));
        }
        r.append(color);
        push_chars(&mut r, &lines[i]);
        r.append(reset);
        push_char(&mut r, '\n');
        assert(r@ =~= framed(ls.take(i + 1), color@, end));
    }
    assert(ls.take(n as int) =~= ls);
    r
}

/// `s` with its escape sequences removed, reading from state `inside`: an
/// escape character opens a sequence, which runs up to and including the
/// next `m`.
pub open spec fn strip_from(s: Seq<char>, inside: bool) -> Seq<char>
    decreases s.len(),
{
    if s.len() == 0 {
        Seq::empty()
    } else if inside {
        strip_from(s.drop_first(), s[0] != 'm')
    } else if s[0] == '\x1b' {
        strip_from(s.drop_first(), true)
    } else {
        seq![s[0]] + strip_from(s.drop_first(), false)
    }
}

/// Whether reading `s` from state `inside` ends within an escape sequence.
pub open spec fn ends_inside(s: Seq<char>, inside: bool) -> bool
    decreases s.len(),
{
    if s.len() == 0 {
        inside
    } else if inside {
        ends_inside(s.drop_first(), s[0] != 'm')
    } else {
        ends_inside(s.drop_first(), s[0] == '\x1b')
    }
}

/// `s` with its escape sequences removed.
pub open spec fn strip_escapes(s: Seq<char>) -> Seq<char> {
    strip_from(s, false)
}

/// Whether `s` holds no escape character.
pub open spec fn no_escape(s: Seq<char>) -> bool {
    forall|i: int| 0 <= i < s.len() ==> #[trigger] s[i] != '\x1b'
}

pub proof fn lemma_strip_concat(a: Seq<char>, b: Seq<char>, inside: bool)
    ensures
        strip_from(a + b, inside) == strip_from(a, inside) + strip_from(b, ends_inside(a, inside)),
        ends_inside(a + b, inside) == ends_inside(b, ends_inside(a, inside)),
    decreases a.len(),
{
    if a.len() == 0 {
        assert(a + b =~= b);
    } else {
        assert((a + b).drop_first() =~= a.drop_first() + b);
        let next = if inside { a[0] != 'm' } else { a[0] == '\x1b' };
        lemma_strip_concat(a.drop_first(), b, next);
        if !inside && a[0] != '\x1b' {
            assert(strip_from(a + b, inside) =~= strip_from(a, inside) + strip_from(b, ends_inside(a, inside)));
        }
    }
}

pub proof fn lemma_strip_plain(a: Seq<char>)
    requires
        no_escape(a),
    ensures
        strip_from(a, false) == a,
        !ends_inside(a, false),
    decreases a.len(),
{
    if a.len() > 0 {
        assert(a[0] != '\x1b');
        assert(no_escape(a.drop_first())) by {
            assert forall|i: int| 0 <= i < a.drop_first().len() implies a.drop_first()[i] != '\x1b' by {
                assert(a.drop_first()[i] == a[i + 1]);
            }
        }
        lemma_strip_plain(a.drop_first());
        assert(seq![a[0]] + a.drop_first() =~= a);
    }
}

proof fn lemma_strip_tail(t: Seq<char>)
    requires
        forall|i: int| 0 <= i < t.len() ==> #[trigger] t[i] != 'm',
    ensures
        strip_from(t.push('m'), true) == Seq::<char>::empty(),
        !ends_inside(t.push('m'), true),
    decreases t.len(),
{
    let u = t.push('m');
    if t.len() > 0 {
        assert(t[0] != 'm');
        assert(u[0] == t[0]);
        assert(u.drop_first() =~= t.drop_first().push('m'));
        assert forall|i: int| 0 <= i < t.drop_first().len() implies #[trigger] t.drop_first()[i] != 'm' by {
            assert(t.drop_first()[i] == t[i + 1]);
        }
        lemma_strip_tail(t.drop_first());
    } else {
        assert(u[0] == 'm');
        assert(u.drop_first() =~= Seq::<char>::empty());
        assert(strip_from(u.drop_first(), false) == Seq::<char>::empty());
        assert(!ends_inside(u.drop_first(), false));
    }
}

proof fn lemma_strip_sgr(code: Seq<char>)
    requires
        forall|i: int| 0 <= i < code.len() ==> #[trigger] code[i] != 'm',
    ensures
        strip_from(sgr(code), false) == Seq::<char>::empty(),
        !ends_inside(sgr(code), false),
{
    let t = seq!['['] + code;
    assert forall|i: int| 0 <= i < t.len() implies #[trigger] t[i] != 'm' by {
        if i > 0 {
            assert(t[i] == code[i - 1]);
        }
    }
    lemma_strip_tail(t);
    assert(sgr(code).drop_first() =~= t.push('m'));
}

/// A color is either empty or one of the palette sequences.
pub open spec fn color_like(c: Seq<char>) -> bool {
    c.len() == 0 || exists|n: char| '0' <= n <= '9' && c == palette_fg(n)
}

proof fn lemma_strip_color(c: Seq<char>)
    requires
        color_like(c),
    ensures
        strip_from(c, false) == Seq::<char>::empty(),
        !ends_inside(c, false),
        strip_from(line_end(c), false) == seq!['\n'],
        !ends_inside(line_end(c), false),
{
    let nl = seq!['\n'];
    assert(no_escape(nl));
    lemma_strip_plain(nl);
    if c.len() == 0 {
        assert(line_end(c) == nl);
    } else {
        let n = choose|n: char| '0' <= n <= '9' && c == palette_fg(n);
        let code = seq!['3', '8', ';', '5', ';', n];
        assert forall|i: int| 0 <= i < code.len() implies #[trigger] code[i] != 'm' by {}
        lemma_strip_sgr(code);
        let rc = seq!['3', '9'];
        assert forall|i: int| 0 <= i < rc.len() implies #[trigger] rc[i] != 'm' by {}
        lemma_strip_sgr(rc);
        assert(line_end(c) =~= reset_fg() + nl);
        lemma_strip_concat(reset_fg(), nl, false);
    }
}

proof fn lemma_lines_plain(s: Seq<char>)
    requires
        no_escape(s),
    ensures
        forall|i: int| 0 <= i < lines_of(s).len() ==> no_escape(#[trigger] lines_of(s)[i]),
    decreases s.len(),
{
    if s.len() > 0 {
        let init = s.drop_last();
        assert(no_escape(init)) by {
            assert forall|i: int| 0 <= i < init.len() implies init[i] != '\x1b' by {
                assert(init[i] == s[i]);
            }
        }
        lemma_lines_plain(init);
        crate::text::lemma_split_nonempty(init, '\n');
        let li = lines_of(init);
        if s.last() != '\n' {
            let last = li.last().push(s.last());
            assert(no_escape(last)) by {
                assert(no_escape(li[li.len() - 1]));
                assert forall|i: int| 0 <= i < last.len() implies last[i] != '\x1b' by {
                    if i < last.len() - 1 {
                        assert(last[i] == li[li.len() - 1][i]);
                    } else {
                        assert(s[s.len() - 1] != '\x1b');
                    }
                }
            }
        }
        assert forall|i: int| 0 <= i < lines_of(s).len() implies no_escape(#[trigger] lines_of(s)[i]) by {
            if i < li.len() - 1 {
                assert(lines_of(s)[i] == li[i]);
            } else if i == li.len() - 1 && s.last() == '\n' {
                assert(lines_of(s)[i] == li[i]);
            } else if s.last() == '\n' {
                assert(lines_of(s)[i] =~= Seq::<char>::empty());
            }
        }
    }
}

proof fn lemma_strip_framed(lines: Seq<Seq<char>>, c: Seq<char>)
    requires
        color_like(c),
        forall|i: int| 0 <= i < lines.len() ==> no_escape(#[trigger] lines[i]),
    ensures
        strip_from(framed(lines, c, line_end(c)), false) == framed(lines, Seq::empty(), seq!['\n']),
        !ends_inside(framed(lines, c, line_end(c)), false),
    decreases lines.len(),
{
    if lines.len() > 0 {
        let init = lines.drop_last();
        let l = lines.last();
        assert forall|i: int| 0 <= i < init.len() implies no_escape(#[trigger] init[i]) by {
            assert(init[i] == lines[i]);
        }
        lemma_strip_framed(init, c);
        assert(no_escape(lines[lines.len() - 1]));
        lemma_strip_plain(l);
        lemma_strip_color(c);
        let f = framed(init, c, line_end(c));
        lemma_strip_concat(f, c, false);
        lemma_strip_concat(f + c, l, false);
        lemma_strip_concat(f + c + l, line_end(c), false);
        assert(framed(lines, Seq::empty(), seq!['\n']) =~= framed(init, Seq::empty(), seq!['\n']) + Seq::empty() + l + seq!['\n']);
        assert(strip_from(framed(lines, c, line_end(c)), false) =~= framed(lines, Seq::empty(), seq!['\n']));
    }
}

/// Wrapping a text free of escapes in a color and then removing the escape
/// sequences gives the text wrapped in no color.
pub proof fn lemma_treated_stripped(s: Seq<char>, c: Seq<char>)
    requires
        color_like(c),
        no_escape(s),
    ensures
        strip_escapes(treated(s, c)) == treated(s, Seq::empty()),
        !ends_inside(treated(s, c), false),
{
    lemma_lines_plain(s);
    lemma_strip_framed(lines_of(s), c);
    assert(line_end(Seq::<char>::empty()) == seq!['\n']);
}

} // verus!
