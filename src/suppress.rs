//! Suppression of noisy traffic in the log: rules keyed by JSON-RPC method
//! or by request path, and the truncation of a logged body to a line budget.
use vstd::prelude::*;
use crate::number::{decimal_failure, decimal_i32, parse_i32};
use crate::packet::{request_side, scope_applies, scope_error, scope_of_upper, upper_of, PacketType, SuppressType};
use crate::text::{
    chars_of, lemma_framed_push, lemma_split_nonempty, lines_of, push_char, push_chars,
    same_text, split_chars, split_on, terminated, views,
};

verus! {

/// The line that stands for the elided middle of a truncated body.
pub open spec fn elision() -> Seq<char> {
    seq!['.', '.', '.', '\n']
}

/// `json` cut down to `limit` lines: nothing for a budget of zero or less,
/// everything when it fits, and otherwise the first half of the budget
/// (rounded up) and the last half (rounded down), each line terminated, with
/// an elision line before the kept tail.
pub open spec fn trimmed(json: Seq<char>, limit: int) -> Seq<char> {
    let lines = lines_of(json);
    if limit <= 0 {
        Seq::empty()
    } else if lines.len() <= limit {
        json
    } else {
        let head = (limit + 1) / 2;
        let tail = limit / 2;
        terminated(lines.take(head)) + (if tail > 0 {
            elision()
        } else {
            Seq::empty()
        }) + terminated(lines.skip(lines.len() - tail))
    }
}

/// When a body is cut, exactly `limit` of its lines are kept: the first
/// half of the budget rounded up and the last half rounded down, with the
/// elision line between them when the tail is not empty.
pub proof fn lemma_trim_keeps_budget(json: Seq<char>, limit: int)
    requires
        0 < limit < lines_of(json).len(),
    ensures
        ({
            let lines = lines_of(json);
            let head = lines.take((limit + 1) / 2);
            let tail = lines.skip(lines.len() - limit / 2);
            &&& head.len() + tail.len() == limit
            &&& head.len() == (limit + 1) / 2
            &&& tail.len() == limit / 2
            &&& trimmed(json, limit) == terminated(head) + (if tail.len() > 0 {
                elision()
            } else {
                Seq::empty()
            }) + terminated(tail)
        }),
{
}

/// Appends each of `lines[from..to]` followed by a line feed.
fn push_lines(out: &mut String, lines: &Vec<Vec<char>>, from: usize, to: usize)
    requires
        from <= to <= lines@.len(),
    ensures
        final(out)@ == old(out)@ + terminated(views(lines@).subrange(from as int, to as int)),
{
    let ghost ls = views(lines@);
    assert(ls.subrange(from as int, from as int) =~= Seq::<Seq<char>>::empty());
    for i in from..to
        invariant
            to <= lines@.len(),
            ls == views(lines@),
            out@ == old(out)@ + terminated(ls.subrange(from as int, i as int)),
    {
        proof {
            lemma_framed_push(ls.subrange(from as int, i as int), ls[i as int], Seq::empty(), seq!['\n']);
            assert(ls.subrange(from as int, i + 1) =~= ls.subrange(from as int, i as int).push(ls[i as int]));
        }
        push_chars(out, &lines[i]);
        push_char(out, '\n');
        assert(out@ =~= old(out)@ + terminated(ls.subrange(from as int, i + 1)));
    }
}

/// Cuts a logged body down to `limit` lines, keeping its beginning and end.
pub fn trim_json(json: &str, limit: i32) -> (r: String)
    ensures
        r@ == trimmed(json@, limit as int),
{
    if limit <= 0 {
        return String::new();
    }
    let cs = chars_of(json);
    let lines = split_chars(&cs, '\n');
    let n = lines.len();
    let lim = limit as usize;
    if n <= lim {
        return String::from_str(json);
    }
    let head = (lim + 1) / 2;
    let tail = lim / 2;
    let ghost ls = views(lines@);
    let mut r = String::new();
    push_lines(&mut r, &lines, 0, head);
    if tail > 0 {
        push_char(&mut r, '.');
        push_char(&mut r, '.');
        push_char(&mut r, '.');
        push_char(&mut r, '\n');
    }
    push_lines(&mut r, &lines, n - tail, n);
    assert(ls.subrange(0, head as int) =~= ls.take(head as int));
    assert(ls.subrange(n - tail, n as int) =~= ls.skip(n - tail));
    assert(r@ =~= trimmed(json@, limit as int));
    r
}

/// The line budget of a rule argument: its second field, or `-1` when that
/// field is missing or empty.
pub open spec fn lines_field(f: Seq<Seq<char>>) -> Result<i32, Seq<char>> {
    if f.len() < 2 || f[1].len() == 0 {
        Ok(-1i32)
    } else {
        match decimal_failure(f[1]) {
            None => Ok(decimal_i32(f[1])->0),
            Some(why) => Err("Unable to parse '"@ + f[1] + "' as LINES: "@ + why),
        }
    }
}

/// The scope of a rule argument: its third field, or both directions when
/// that field is missing or empty.
pub open spec fn type_field(f: Seq<Seq<char>>) -> Result<SuppressType, Seq<char>> {
    if f.len() < 3 || f[2].len() == 0 {
        Ok(SuppressType::All)
    } else {
        match scope_of_upper(upper_of(f[2])) {
            Some(t) => Ok(t),
            None => Err(scope_error(f[2])),
        }
    }
}

/// The message for a rule argument with more than two colons.
pub open spec fn colons_error(arg: Seq<char>) -> Seq<char> {
    "Unable to parse argument '"@ + arg + "' as 'PATH[:LINES][:TYPE]': too many colons"@
}

/// A rule argument `KEY[:LINES][:TYPE]` read field by field, the first
/// failing field giving the error.
pub open spec fn suppress_arg(arg: Seq<char>) -> Result<(Seq<char>, i32, SuppressType), Seq<char>> {
    let f = split_on(arg, ':');
    match lines_field(f) {
        Err(e) => Err(e),
        Ok(lines) => match type_field(f) {
            Err(e) => Err(e),
            Ok(t) => if f.len() > 3 {
                Err(colons_error(arg))
            } else {
                Ok((f[0], lines, t))
            },
        },
    }
}

/// A string holding the characters of `cs`.
fn string_of(cs: &Vec<char>) -> (r: String)
    ensures
        r@ == cs@,
{
    let mut r = String::new();
    push_chars(&mut r, cs);
    r
}

/// Reads a suppression rule argument `KEY[:LINES][:TYPE]`.
pub fn parse_suppress(arg: &str) -> (r: Result<(String, (i32, SuppressType)), String>)
    ensures
        r matches Ok((k, (lines, t))) ==> suppress_arg(arg@) == Ok::<_, Seq<char>>((k@, lines, t)),
        r matches Err(e) ==> suppress_arg(arg@) == Err::<(Seq<char>, i32, SuppressType), _>(e@),
{
    let cs = chars_of(arg);
    let fields = split_chars(&cs, ':');
    let ghost f = views(fields@);
    proof {
        lemma_split_nonempty(arg@, ':');
    }
    let n = fields.len();
    let mut lines: i32 = -1;
    if n >= 2 && fields[1].len() > 0 {
        let text = string_of(&fields[1]);
        match parse_i32(text.as_str()) {
            Ok(v) => {
                lines = v;
            },
            Err(why) => {
                let mut e = String::from_str("Unable to parse '");
                e.append(text.as_str());
                e.append("' as LINES: ");
                e.append(why.as_str());
                return Err(e);
            },
        }
    }
    let mut t = SuppressType::All;
    if n >= 3 {
        let text = string_of(&fields[2]);
        match SuppressType::parse(text.as_str()) {
            Ok(v) => {
                t = v;
            },
            Err(e) => {
                return Err(e);
            },
        }
    }
    if n > 3 {
        let mut e = String::from_str("Unable to parse argument '");
        e.append(arg);
        e.append("' as 'PATH[:LINES][:TYPE]': too many colons");
        return Err(e);
    }
    Ok((string_of(&fields[0]), (lines, t)))
}

/// A suppression rule: a method name or a path, its line budget and its scope.
pub type SuppressRule = (String, (i32, SuppressType));

/// The rule for `key`: the last one given for it, as later rules override
/// earlier ones.
pub open spec fn rule_for(rules: Seq<SuppressRule>, key: Seq<char>) -> Option<(i32, SuppressType)>
    decreases rules.len(),
{
    if rules.len() == 0 {
        None
    } else if rules.last().0@ == key {
        Some(rules.last().1)
    } else {
        rule_for(rules.drop_last(), key)
    }
}

/// The label under which a method rule logs.
pub open spec fn method_label(m: Seq<char>) -> Seq<char> {
    "[method "@ + m + "]"@
}

/// The rules, by JSON-RPC method and by request path.
pub struct SuppressRules {
    pub methods: Vec<SuppressRule>,
    pub paths: Vec<SuppressRule>,
}

/// How a message of type `msg` is logged, given the method of the request
/// (if it is a JSON-RPC call), its path and how both directions were
/// classified: `None` is in full; otherwise a line budget and a label. A
/// dropped exchange is always in full; then a method rule whose scope fits;
/// then a path rule whose scope fits.
pub open spec fn suppression(
    msg: PacketType,
    method: Option<Seq<char>>,
    path: Seq<char>,
    request_type: PacketType,
    response_type: PacketType,
    rules: SuppressRules,
) -> Option<(i32, Seq<char>)> {
    if request_type.dropped() || response_type.dropped() {
        None
    } else {
        let by_method = match method {
            Some(m) => match rule_for(rules.methods@, m) {
                Some((lines, st)) => if scope_applies(msg, st) {
                    Some((lines, method_label(m)))
                } else {
                    None
                },
                None => None,
            },
            None => None,
        };
        if by_method is Some {
            by_method
        } else {
            match rule_for(rules.paths@, path) {
                Some((lines, st)) => if scope_applies(msg, st) {
                    Some((lines, path))
                } else {
                    None
                },
                None => None,
            }
        }
    }
}

/// The rule for `key` among `rules`, if any.
pub fn find_rule(rules: &Vec<SuppressRule>, key: &str) -> (r: Option<(i32, SuppressType)>)
    ensures
        r == rule_for(rules@, key@),
{
    let mut found: Option<(i32, SuppressType)> = None;
    let n = rules.len();
    for i in 0..n
        invariant
            n == rules@.len(),
            found == rule_for(rules@.take(i as int), key@),
    {
        assert(rules@.take(i + 1).drop_last() =~= rules@.take(i as int));
        if same_text(rules[i].0.as_str(), key) {
            found = Some(rules[i].1);
        }
    }
    assert(rules@.take(n as int) =~= rules@);
    found
}

/// Decides how a message is logged; see `suppression`.
pub fn suppress_log(
    message_type: PacketType,
    rpc_method: Option<&str>,
    request_path: &str,
    request_type: PacketType,
    response_type: PacketType,
    rules: &SuppressRules,
) -> (r: Option<(i32, String)>)
    ensures
        r matches Some((l, label)) ==> suppression(
            message_type,
            match rpc_method { Some(m) => Some(m@), None => None },
            request_path@,
            request_type,
            response_type,
            *rules,
        ) == Some((l, label@)),
        r is None ==> suppression(
            message_type,
            match rpc_method { Some(m) => Some(m@), None => None },
            request_path@,
            request_type,
            response_type,
            *rules,
        ) is None,
{
    if request_type.is_dropped() || response_type.is_dropped() {
        return None;
    }
    if let Some(m) = rpc_method {
        if let Some((lines, st)) = find_rule(&rules.methods, m) {
            if message_type.suppress(st) {
                let mut label = String::from_str("[method ");
                label.append(m);
                label.append("]");
                return Some((lines, label));
            }
        }
    }
    if let Some((lines, st)) = find_rule(&rules.paths, request_path) {
        if message_type.suppress(st) {
            return Some((lines, String::from_str(request_path)));
        }
    }
    None
}

/// What is logged of a message, given the suppression decision: nothing for
/// a negative budget; else the body (trimmed to the budget, or whole when no
/// rule applies) and, for requests, the label (the rule's, or else the path).
pub open spec fn planned(
    msg: PacketType,
    decision: Option<(i32, Seq<char>)>,
    json: Seq<char>,
    path: Seq<char>,
) -> Option<(Seq<char>, Seq<char>)> {
    match decision {
        Some((lines, label)) => if lines < 0 {
            None
        } else {
            Some((trimmed(json, lines as int), if request_side(msg) { label } else { Seq::empty() }))
        },
        None => Some((json, if request_side(msg) { path } else { Seq::empty() })),
    }
}

/// The body and label to log for a message, or `None` when it is not logged.
pub fn log_plan(
    message_type: PacketType,
    decision: Option<(i32, String)>,
    json: &str,
    request_path: &str,
) -> (r: Option<(String, String)>)
    ensures
        r matches Some((body, label)) ==> planned(
            message_type,
            match decision { Some((l, t)) => Some((l, t@)), None => None },
            json@,
            request_path@,
        ) == Some((body@, label@)),
        r is None ==> planned(
            message_type,
            match decision { Some((l, t)) => Some((l, t@)), None => None },
            json@,
            request_path@,
        ) is None,
{
    let request = matches!(message_type, PacketType::Request | PacketType::RequestDropped(_));
    match decision {
        Some((lines, label)) => {
            if lines < 0 {
                None
            } else {
                let label = if request { label } else { String::new() };
                Some((trim_json(json, lines), label))
            }
        },
        None => {
            let label = if request { String::from_str(request_path) } else { String::new() };
            Some((String::from_str(json), label))
        },
    }
}

/// A dropped exchange is logged in full in both directions, whatever rules
/// match it.
pub proof fn lemma_dropped_logged_in_full(
    msg: PacketType,
    method: Option<Seq<char>>,
    path: Seq<char>,
    request_type: PacketType,
    response_type: PacketType,
    rules: SuppressRules,
    json: Seq<char>,
)
    requires
        request_type.dropped() || response_type.dropped(),
    ensures
        planned(msg, suppression(msg, method, path, request_type, response_type, rules), json, path)
            == Some((json, if request_side(msg) { path } else { Seq::<char>::empty() })),
{
}

/// A method rule whose scope fits the message decides how it is logged,
/// whatever rule its path has.
pub proof fn lemma_method_rule_wins(
    msg: PacketType,
    method: Seq<char>,
    path: Seq<char>,
    request_type: PacketType,
    response_type: PacketType,
    rules: SuppressRules,
    lines: i32,
    scope: SuppressType,
)
    requires
        !request_type.dropped(),
        !response_type.dropped(),
        rule_for(rules.methods@, method) == Some((lines, scope)),
        scope_applies(msg, scope),
    ensures
        suppression(msg, Some(method), path, request_type, response_type, rules)
            == Some((lines, method_label(method))),
{
}

} // verus!
