//! Wrapping of log text into fixed-width rows.
use vstd::prelude::*;
use vstd::slice::slice_subrange;
use vstd::std_specs::iter::IteratorSpec;

verus! {

/// The characters of each string, in order.
pub open spec fn views(v: Seq<String>) -> Seq<Seq<char>> {
    v.map_values(|x: String| x@)
}

/// Consecutive pieces of `s`, each `w` characters long but the last, which
/// holds what is left. Empty text, or a width of zero, gives no pieces.
pub open spec fn chunks(s: Seq<char>, w: nat) -> Seq<Seq<char>>
    decreases s.len(),
{
    if s.len() == 0 || w == 0 {
        seq![]
    } else if s.len() <= w {
        seq![s]
    } else {
        seq![s.take(w as int)] + chunks(s.skip(w as int), w)
    }
}

/// The characters of `s`, in order.
pub(crate) fn chars_of(s: &str) -> (r: Vec<char>)
    ensures
        r@ == s@,
{
    broadcast use vstd::string::axiom_spec_iter, vstd::string::next_postcondition;
    let mut it = s.chars();
    let mut out: Vec<char> = Vec::new();
    loop
        invariant
            out@ + it.remaining() == s@,
            it.decrease() is Some,
        ensures
            out@ == s@,
        decreases it.decrease()->0,
    {
        match it.next() {
            Some(c) => {
                out.push(c);
            },
            None => {
                assert(out@ =~= s@);
                break;
            },
        }
    }
    out
}

/// Relies on `FromIterator<char> for String`: a string of exactly these characters.
#[verifier::external_body]
pub(crate) fn string_of(cs: &[char]) -> (r: String)
    ensures
        r@ == cs@,
{
    cs.iter().collect()
}

/// Appends to `out` the pieces of `cs[start..end]` of width `w`.
fn push_chunks(out: &mut Vec<String>, cs: &[char], start: usize, end: usize, w: usize)
    requires
        start <= end <= cs@.len(),
        w >= 1,
    ensures
        views(final(out)@) == views(old(out)@) + chunks(cs@.subrange(start as int, end as int), w as nat),
{
    let mut i: usize = start;
    while i < end
        invariant
            start <= i <= end <= cs@.len(),
            w >= 1,
            views(old(out)@) + chunks(cs@.subrange(start as int, end as int), w as nat)
                == views(out@) + chunks(cs@.subrange(i as int, end as int), w as nat),
        decreases end - i,
    {
        let j: usize = if end - i <= w { end } else { i + w };
        let piece = string_of(slice_subrange(cs, i, j));
        let ghost rest = cs@.subrange(i as int, end as int);
        proof {
            if rest.len() > w {
                assert(rest.take(w as int) =~= cs@.subrange(i as int, j as int));
                assert(rest.skip(w as int) =~= cs@.subrange(j as int, end as int));
            } else {
                assert(rest =~= cs@.subrange(i as int, j as int));
                assert(cs@.subrange(j as int, end as int).len() == 0);
            }
        }
        out.push(piece);
        i = j;
    }
}

/// Splits `text` into rows of at most `width` characters, keeping every
/// character in order; only the last row may be shorter.
pub fn cut_line(text: &str, width: usize) -> (r: Vec<String>)
    requires
        width >= 1,
    ensures
        views(r@) == chunks(text@, width as nat),
{
    let cs = chars_of(text);
    let mut out: Vec<String> = Vec::new();
    push_chunks(&mut out, cs.as_slice(), 0, cs.len(), width);
    assert(cs@.subrange(0, cs@.len() as int) =~= text@);
    assert(views(out@) =~= chunks(text@, width as nat));
    out
}

/// The lines of `s`, cut at each `'\n'`, the line breaks dropped. The text
/// after the last break is the last line, empty when `s` ends with a break.
pub open spec fn split_nl(s: Seq<char>) -> Seq<Seq<char>>
    decreases s.len(),
{
    if s.len() == 0 {
        seq![seq![]]
    } else {
        let init = split_nl(s.drop_last());
        if s.last() == '\n' {
            init.push(seq![])
        } else {
            init.update(init.len() - 1, init.last().push(s.last()))
        }
    }
}

/// A line without the `'\r'` of a `"\r\n"` break.
pub open spec fn strip_cr(l: Seq<char>) -> Seq<char> {
    if l.len() > 0 && l.last() == '\r' {
        l.drop_last()
    } else {
        l
    }
}

/// The rows of width `w` of each line in turn, for lines that a `'\n'`
/// ends: a `'\r'` just before that break is dropped.
pub open spec fn rows(ls: Seq<Seq<char>>, w: nat) -> Seq<Seq<char>>
    decreases ls.len(),
{
    if ls.len() == 0 {
        seq![]
    } else {
        rows(ls.drop_last(), w) + chunks(strip_cr(ls.last()), w)
    }
}

/// The rows that a log text shows at width `w`: each line cut into pieces of
/// `w` characters. An empty line gives no row. The text after the last
/// `'\n'` keeps all its characters, a final `'\r'` too.
pub open spec fn wrapped(s: Seq<char>, w: nat) -> Seq<Seq<char>> {
    rows(split_nl(s).drop_last(), w) + chunks(split_nl(s).last(), w)
}

/// Splits a log text into lines and cuts each line into rows of at most
/// `width` characters.
pub fn wrap_log(text: &str, width: usize) -> (r: Vec<String>)
    requires
        width >= 1,
    ensures
        views(r@) == wrapped(text@, width as nat),
{
    let cs = chars_of(text);
    let n = cs.len();
    let mut out: Vec<String> = Vec::new();
    let mut line_start: usize = 0;
    let mut i: usize = 0;
    while i < n
        invariant
            n == cs@.len(),
            cs@ == text@,
            line_start <= i <= n,
            width >= 1,
            split_nl(cs@.take(i as int)).len() >= 1,
            split_nl(cs@.take(i as int)).last() == cs@.subrange(line_start as int, i as int),
            views(out@) == rows(split_nl(cs@.take(i as int)).drop_last(), width as nat),
        decreases n - i,
    {
        let ghost before = split_nl(cs@.take(i as int));
        assert(cs@.take(i + 1).drop_last() =~= cs@.take(i as int));
        if cs[i] == '\n' {
            let mut end = i;
            if end > line_start && cs[end - 1] == '\r' {
                end = end - 1;
            }
            assert(cs@.subrange(line_start as int, end as int) =~= strip_cr(before.last()));
            push_chunks(&mut out, cs.as_slice(), line_start, end, width);
            assert(split_nl(cs@.take(i + 1)).drop_last() =~= before);
            line_start = i + 1;
            assert(cs@.subrange(line_start as int, i + 1) =~= seq![]);
        } else {
            assert(split_nl(cs@.take(i + 1)).drop_last() =~= before.drop_last());
            assert(cs@.subrange(line_start as int, i + 1) =~= before.last().push(cs@[i as int]));
        }
        i = i + 1;
    }
    push_chunks(&mut out, cs.as_slice(), line_start, n, width);
    assert(cs@.take(n as int) =~= text@);
    out
}

/// Cutting text into rows loses and adds nothing: the rows, put back
/// together, are the text, and none is longer than the width, nor empty.
pub proof fn lemma_chunks_round_trip(t: Seq<char>, w: nat)
    requires
        w >= 1,
    ensures
        chunks(t, w).flatten() == t,
        forall|k: int| 0 <= k < chunks(t, w).len() ==> 0 < #[trigger] chunks(t, w)[k].len() <= w,
    decreases t.len(),
{
    if t.len() == 0 {
    } else if t.len() <= w {
        assert(seq![t].drop_first() =~= Seq::<Seq<char>>::empty());
        assert(seq![t].flatten() =~= t + Seq::<Seq<char>>::empty().flatten());
    } else {
        let rest = t.skip(w as int);
        lemma_chunks_round_trip(rest, w);
        let c = chunks(t, w);
        assert(c.drop_first() =~= chunks(rest, w));
        assert(t =~= t.take(w as int) + rest);
        assert forall|k: int| 0 <= k < c.len() implies 0 < #[trigger] c[k].len() <= w by {
            if k > 0 {
                assert(c[k] == chunks(rest, w)[k - 1]);
            }
        }
    }
}

} // verus!
