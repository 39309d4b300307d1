//! Lines, white-space separated words, and joining.

use crate::text::{
    char_is_whitespace, find_from, index_of, is_whitespace, leading, lemma_leading_is, slice,
    string_views, views,
};
use vstd::prelude::*;
use vstd::string::StringExecFns;

verus! {

/// `s` without one carriage return at its end.
pub open spec fn without_cr(s: Seq<char>) -> Seq<char> {
    if s.len() > 0 && s.last() == '\r' {
        s.drop_last()
    } else {
        s
    }
}

/// The lines of `s`. A line ends at a line feed; a carriage return right
/// before that line feed belongs to the line ending. What follows the last
/// line feed is a line only if it is not empty.
pub open spec fn lines_of(s: Seq<char>) -> Seq<Seq<char>>
    decreases s.len(),
{
    let i = index_of(s, '\n');
    if s.len() == 0 {
        Seq::empty()
    } else if 0 <= i < s.len() {
        seq![without_cr(s.take(i))] + lines_of(s.skip(i + 1))
    } else {
        seq![s]
    }
}

/// The lines of `v`.
pub fn lines(v: &Vec<char>) -> (out: Vec<Vec<char>>)
    ensures
        views(out@) == lines_of(v@),
{
    let n = v.len();
    let mut out: Vec<Vec<char>> = Vec::new();
    let mut start: usize = 0;
    proof {
        assert(v@.skip(0) =~= v@);
        assert(views(out@) + lines_of(v@) =~= lines_of(v@));
    }
    while start < n
        invariant
            start <= n == v.len(),
            lines_of(v@) == views(out@) + lines_of(v@.skip(start as int)),
        decreases n - start,
    {
        let i = find_from(v, '\n', start);
        let ghost rest = v@.skip(start as int);
        let ghost before = views(out@);
        if i < n {
            let end = if i > start && v[i - 1] == '\r' {
                i - 1
            } else {
                i
            };
            let line = slice(v, start, end);
            proof {
                assert(rest.take(i - start) =~= v@.subrange(start as int, i as int));
                assert(without_cr(rest.take(i - start)) =~= v@.subrange(start as int, end as int));
                assert(rest.skip(i - start + 1) =~= v@.skip(i + 1));
            }
            out.push(line);
            proof {
                assert(views(out@) =~= before.push(line@));
                assert(before + (seq![line@] + lines_of(v@.skip(i + 1))) =~= before.push(line@)
                    + lines_of(v@.skip(i + 1)));
            }
            start = i + 1;
        } else {
            let line = slice(v, start, n);
            proof {
                assert(v@.subrange(start as int, n as int) =~= rest);
                assert(v@.skip(n as int) =~= Seq::<char>::empty());
            }
            out.push(line);
            proof {
                assert(views(out@) =~= before.push(line@));
                assert(before + seq![rest] =~= before.push(line@) + lines_of(v@.skip(n as int)));
            }
            start = n;
        }
    }
    proof {
        assert(v@.skip(n as int) =~= Seq::<char>::empty());
        assert(views(out@) + Seq::<Seq<char>>::empty() =~= views(out@));
    }
    out
}

/// The predicate "is not white space".
pub open spec fn not_ws() -> spec_fn(char) -> bool {
    |c: char| !is_whitespace(c)
}

/// The maximal runs of characters of `s` that are not white space, in order.
pub open spec fn words_of(s: Seq<char>) -> Seq<Seq<char>>
    decreases s.len(),
{
    let n = leading(s, not_ws()) as int;
    if s.len() == 0 {
        Seq::empty()
    } else if is_whitespace(s[0]) {
        words_of(s.skip(1))
    } else if 0 < n <= s.len() {
        seq![s.take(n)] + words_of(s.skip(n))
    } else {
        Seq::empty()
    }
}

/// The maximal runs of characters of `v` that are not white space, in order.
pub fn split_whitespace(v: &Vec<char>) -> (out: Vec<Vec<char>>)
    ensures
        views(out@) == words_of(v@),
{
    let n = v.len();
    let mut out: Vec<Vec<char>> = Vec::new();
    let mut start: usize = 0;
    proof {
        assert(v@.skip(0) =~= v@);
        assert(views(out@) + words_of(v@) =~= words_of(v@));
    }
    while start < n
        invariant
            start <= n == v.len(),
            words_of(v@) == views(out@) + words_of(v@.skip(start as int)),
        decreases n - start,
    {
        let ghost rest = v@.skip(start as int);
        let ghost before = views(out@);
        if char_is_whitespace(v[start]) {
            proof {
                assert(rest.skip(1) =~= v@.skip(start + 1));
            }
            start += 1;
        } else {
            let mut end: usize = start + 1;
            while end < n && !char_is_whitespace(v[end])
                invariant
                    start < end <= n == v.len(),
                    forall|j: int| start <= j < end ==> not_ws()(#[trigger] v[j]),
                decreases n - end,
            {
                end += 1;
            }
            let word = slice(v, start, end);
            proof {
                assert forall|j: int| 0 <= j < end - start implies not_ws()(#[trigger] rest[j]) by {
                    assert(rest[j] == v[j + start]);
                }
                lemma_leading_is(rest, not_ws(), end - start);
                assert(rest.take(end - start) =~= v@.subrange(start as int, end as int));
                assert(rest.skip(end - start) =~= v@.skip(end as int));
            }
            out.push(word);
            proof {
                assert(views(out@) =~= before.push(word@));
                assert(before + (seq![word@] + words_of(v@.skip(end as int))) =~= before.push(
                    word@,
                ) + words_of(v@.skip(end as int)));
            }
            start = end;
        }
    }
    proof {
        assert(v@.skip(n as int) =~= Seq::<char>::empty());
        assert(views(out@) + Seq::<Seq<char>>::empty() =~= views(out@));
    }
    out
}

/// The parts, with `sep` between each two neighbours.
pub open spec fn joined(parts: Seq<Seq<char>>, sep: Seq<char>) -> Seq<char>
    decreases parts.len(),
{
    if parts.len() == 0 {
        Seq::empty()
    } else if parts.len() == 1 {
        parts[0]
    } else {
        joined(parts.drop_last(), sep) + sep + parts.last()
    }
}

/// The strings of `parts`, with `sep` between each two neighbours.
pub fn join(parts: &Vec<String>, sep: &str) -> (out: String)
    ensures
        out@ == joined(string_views(parts@), sep@),
{
    let mut out = String::new();
    let mut i: usize = 0;
    while i < parts.len()
        invariant
            i <= parts.len(),
            out@ == joined(string_views(parts@).take(i as int), sep@),
        decreases parts.len() - i,
    {
        let ghost all = string_views(parts@);
        proof {
            assert(all.take(i + 1).drop_last() =~= all.take(i as int));
            assert(all.take(i + 1).last() == parts[i as int]@);
        }
        if i > 0 {
            out.append(sep);
        }
        out.append(parts[i].as_str());
        proof {
            if i == 0 {
                assert(Seq::<char>::empty() + parts[0]@ =~= parts[0]@);
            }
        }
        i += 1;
    }
    proof {
        assert(string_views(parts@).take(parts.len() as int) =~= string_views(parts@));
    }
    out
}

/// The pieces into which the character `c` cuts `s`: what stands before
/// its first occurrence, between each two, and after the last. There is
/// always at least one piece; a piece may be empty.
pub open spec fn pieces_of(s: Seq<char>, c: char) -> Seq<Seq<char>>
    decreases s.len(),
{
    let i = index_of(s, c);
    if 0 <= i < s.len() {
        seq![s.take(i)] + pieces_of(s.skip(i + 1), c)
    } else {
        seq![s]
    }
}

/// The pieces into which the character `c` cuts `v`.
pub fn split(v: &Vec<char>, c: char) -> (out: Vec<Vec<char>>)
    ensures
        views(out@) == pieces_of(v@, c),
        out.len() >= 1,
{
    let n = v.len();
    let mut out: Vec<Vec<char>> = Vec::new();
    let mut start: usize = 0;
    proof {
        assert(v@.skip(0) =~= v@);
        assert(views(out@) + pieces_of(v@, c) =~= pieces_of(v@, c));
    }
    loop
        invariant
            start <= n == v.len(),
            pieces_of(v@, c) == views(out@) + pieces_of(v@.skip(start as int), c),
        decreases n - start,
    {
        let i = find_from(v, c, start);
        let ghost rest = v@.skip(start as int);
        let ghost before = views(out@);
        let piece = slice(v, start, i);
        proof {
            assert(rest.take(i - start) =~= v@.subrange(start as int, i as int));
        }
        out.push(piece);
        proof {
            assert(views(out@) =~= before.push(piece@));
        }
        if i < n {
            proof {
                assert(rest.skip(i - start + 1) =~= v@.skip(i + 1));
                assert(before + (seq![piece@] + pieces_of(v@.skip(i + 1), c)) =~= before.push(
                    piece@,
                ) + pieces_of(v@.skip(i + 1), c));
            }
            start = i + 1;
        } else {
            proof {
                assert(rest.take(rest.len() as int) =~= rest);
                assert(before + seq![rest] =~= views(out@));
            }
            return out;
        }
    }
}

} // verus!
