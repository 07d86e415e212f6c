//! Character-level helpers over strings: splitting into pieces, joining
//! pieces back with framing around each one, and building `String`s.
use vstd::prelude::*;

verus! {

/// The pieces of `s` between occurrences of `sep`, as `str::split` yields
/// them: `n` separators give `n + 1` pieces.
pub open spec fn split_on(s: Seq<char>, sep: char) -> Seq<Seq<char>>
    decreases s.len(),
{
    if s.len() == 0 {
        seq![Seq::empty()]
    } else {
        let init = split_on(s.drop_last(), sep);
        if s.last() == sep {
            init.push(Seq::empty())
        } else {
            init.update(init.len() - 1, init.last().push(s.last()))
        }
    }
}

/// The lines of `s`: its pieces between line feeds.
pub open spec fn lines_of(s: Seq<char>) -> Seq<Seq<char>> {
    split_on(s, '\n')
}

/// Each piece framed by `pre` and `post`, all concatenated in order.
pub open spec fn framed(pieces: Seq<Seq<char>>, pre: Seq<char>, post: Seq<char>) -> Seq<char>
    decreases pieces.len(),
{
    if pieces.len() == 0 {
        Seq::empty()
    } else {
        framed(pieces.drop_last(), pre, post) + pre + pieces.last() + post
    }
}

/// Each line followed by a line feed.
pub open spec fn terminated(lines: Seq<Seq<char>>) -> Seq<char> {
    framed(lines, Seq::empty(), seq!['\n'])
}

/// The contents of each character vector.
pub open spec fn views(v: Seq<Vec<char>>) -> Seq<Seq<char>> {
    v.map_values(|x: Vec<char>| x@)
}

/// Splitting never yields an empty list of pieces.
pub proof fn lemma_split_nonempty(s: Seq<char>, sep: char)
    ensures
        split_on(s, sep).len() >= 1,
    decreases s.len(),
{
    if s.len() > 0 {
        lemma_split_nonempty(s.drop_last(), sep);
    }
}

/// Framing a list extended by one piece appends that piece, framed.
pub proof fn lemma_framed_push(pieces: Seq<Seq<char>>, p: Seq<char>, pre: Seq<char>, post: Seq<char>)
    ensures
        framed(pieces.push(p), pre, post) == framed(pieces, pre, post) + pre + p + post,
{
    assert(pieces.push(p).drop_last() =~= pieces);
}

/// Relies on `String::push`: the character is appended at the end.
#[verifier::external_body]
pub(crate) fn push_char(s: &mut String, c: char)
    ensures
        final(s)@ == old(s)@.push(c),
{
    s.push(c);
}

/// The characters of `s`, in order.
pub fn chars_of(s: &str) -> (r: Vec<char>)
    ensures
        r@ == s@,
{
    let mut r: Vec<char> = Vec::new();
    for c in it: s.chars()
        invariant
            r@ == it.seq().take(it.index() as int),
    {
        r.push(c);
    }
    r
}

/// Appends the characters of `cs` to `out`.
pub fn push_chars(out: &mut String, cs: &Vec<char>)
    ensures
        final(out)@ == old(out)@ + cs@,
{
    let n = cs.len();
    for i in 0..n
        invariant
            n == cs@.len(),
            out@ == old(out)@ + cs@.take(i as int),
    {
        push_char(out, cs[i]);
        assert(cs@.take(i + 1) =~= cs@.take(i as int).push(cs@[i as int]));
    }
    assert(cs@.take(n as int) =~= cs@);
}

/// Splits `s` at each occurrence of `sep`.
pub fn split_chars(s: &Vec<char>, sep: char) -> (r: Vec<Vec<char>>)
    ensures
        views(r@) == split_on(s@, sep),
{
    let mut done: Vec<Vec<char>> = Vec::new();
    let mut cur: Vec<char> = Vec::new();
    let n = s.len();
    for i in 0..n
        invariant
            n == s@.len(),
            views(done@).push(cur@) == split_on(s@.take(i as int), sep),
    {
        let c = s[i];
        proof {
            let p = s@.take(i + 1);
            assert(p.drop_last() =~= s@.take(i as int));
            assert(p.last() == c);
        }
        if c == sep {
            let ghost before = views(done@);
            let finished = cur;
            done.push(finished);
            cur = Vec::new();
            assert(views(done@) =~= before.push(finished@));
            assert(views(done@).push(cur@) =~= split_on(s@.take(i + 1), sep));
        } else {
            cur.push(c);
            assert(views(done@).push(cur@) =~= split_on(s@.take(i + 1), sep));
        }
    }
    assert(s@.take(n as int) =~= s@);
    let ghost before = views(done@);
    done.push(cur);
    assert(views(done@) =~= before.push(cur@));
    done
}

/// Whether two strings hold the same characters.
pub fn same_text(a: &str, b: &str) -> (r: bool)
    ensures
        r == (a@ == b@),
{
    let x = String::from_str(a);
    let y = String::from_str(b);
    x == y
}

} // verus!
