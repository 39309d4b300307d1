//! Character-level helpers on which the parsers of this crate are built.
//!
//! Every helper is stated over `Seq<char>`, the view of a string, and has an
//! executable counterpart that works on `Vec<char>`.

use vstd::prelude::*;
use vstd::string::StringExecFns;

verus! {

/// `String::push` appends one character to the end of the string.
pub assume_specification[ String::push ](s: &mut String, ch: char)
    ensures
        final(s)@ == old(s)@.push(ch),
;

/// What `str::to_uppercase` returns for a string with the given characters.
pub uninterp spec fn uppercase_of(s: Seq<char>) -> Seq<char>;

/// `str::to_uppercase` maps each character to its Unicode upper-case
/// equivalent; the result is a function of the characters alone.
pub assume_specification[ str::to_uppercase ](s: &str) -> (out: String)
    ensures
        out@ == uppercase_of(s@),
;

/// The views of a list of character vectors.
pub open spec fn views(v: Seq<Vec<char>>) -> Seq<Seq<char>> {
    Seq::new(v.len(), |i: int| v[i]@)
}

/// The views of a list of strings.
pub open spec fn string_views(v: Seq<String>) -> Seq<Seq<char>> {
    Seq::new(v.len(), |i: int| v[i]@)
}

/// The characters of `s`, in order.
pub fn to_chars(s: &str) -> (out: Vec<char>)
    ensures
        out@ == s@,
{
    let mut out: Vec<char> = Vec::new();
    for c in it: s.chars()
        invariant
            out@ == s@.take(it.index() as int),
            it.seq() == s@,
    {
        out.push(c);
    }
    out
}

/// The string made of the characters of `v`, in order.
pub fn from_chars(v: &Vec<char>) -> (out: String)
    ensures
        out@ == v@,
{
    let mut out = String::new();
    let mut i: usize = 0;
    while i < v.len()
        invariant
            i <= v.len(),
            out@ == v@.take(i as int),
        decreases v.len() - i,
    {
        out.push(v[i]);
        i += 1;
    }
    out
}

/// The strings made of each element of `v`.
pub fn from_chars_list(v: &Vec<Vec<char>>) -> (out: Vec<String>)
    ensures
        string_views(out@) == views(v@),
{
    let mut out: Vec<String> = Vec::new();
    let mut i: usize = 0;
    while i < v.len()
        invariant
            i <= v.len(),
            out.len() == i,
            forall|j: int| 0 <= j < i ==> out[j]@ == v[j]@,
        decreases v.len() - i,
    {
        out.push(from_chars(&v[i]));
        i += 1;
    }
    assert(string_views(out@) =~= views(v@));
    out
}

/// The characters of each element of `v`.
pub fn to_chars_list(v: &Vec<String>) -> (out: Vec<Vec<char>>)
    ensures
        views(out@) == string_views(v@),
{
    let mut out: Vec<Vec<char>> = Vec::new();
    let mut i: usize = 0;
    while i < v.len()
        invariant
            i <= v.len(),
            out.len() == i,
            forall|j: int| 0 <= j < i ==> out[j]@ == v[j]@,
        decreases v.len() - i,
    {
        out.push(to_chars(v[i].as_str()));
        i += 1;
    }
    assert(views(out@) =~= string_views(v@));
    out
}

/// Whether two character vectors hold the same characters.
pub fn chars_eq(a: &Vec<char>, b: &Vec<char>) -> (r: bool)
    ensures
        r == (a@ == b@),
{
    if a.len() != b.len() {
        return false;
    }
    let mut i: usize = 0;
    while i < a.len()
        invariant
            i <= a.len(),
            a.len() == b.len(),
            forall|j: int| 0 <= j < i ==> a[j] == b[j],
        decreases a.len() - i,
    {
        if a[i] != b[i] {
            return false;
        }
        i += 1;
    }
    assert(a@ =~= b@);
    true
}

/// Whether two strings hold the same characters.
pub fn str_eq(a: &str, b: &str) -> (r: bool)
    ensures
        r == (a@ == b@),
{
    let x = to_chars(a);
    let y = to_chars(b);
    chars_eq(&x, &y)
}

/// A copy of the characters of `v` from index `lo` up to, not including, `hi`.
pub fn slice(v: &Vec<char>, lo: usize, hi: usize) -> (out: Vec<char>)
    requires
        lo <= hi <= v.len(),
    ensures
        out@ == v@.subrange(lo as int, hi as int),
{
    let mut out: Vec<char> = Vec::new();
    let mut i: usize = lo;
    while i < hi
        invariant
            lo <= i <= hi <= v.len(),
            out@ == v@.subrange(lo as int, i as int),
        decreases hi - i,
    {
        out.push(v[i]);
        i += 1;
        assert(v@.subrange(lo as int, i as int) =~= v@.subrange(lo as int, i - 1).push(
            v@[i - 1],
        ));
    }
    out
}

/// The concatenation of `a` and `b`.
pub fn concat_chars(a: &Vec<char>, b: &Vec<char>) -> (out: Vec<char>)
    ensures
        out@ == a@ + b@,
{
    let mut out: Vec<char> = slice(a, 0, a.len());
    assert(a@.subrange(0, a.len() as int) =~= a@);
    let mut i: usize = 0;
    while i < b.len()
        invariant
            i <= b.len(),
            out@ == a@ + b@.take(i as int),
        decreases b.len() - i,
    {
        out.push(b[i]);
        i += 1;
        assert(a@ + b@.take(i as int) =~= (a@ + b@.take(i - 1)).push(b@[i - 1]));
    }
    assert(b@.take(b.len() as int) =~= b@);
    out
}

// ---------------------------------------------------------------------------
// Runs of characters
// ---------------------------------------------------------------------------

/// How many characters at the start of `s` satisfy `p`.
pub open spec fn leading(s: Seq<char>, p: spec_fn(char) -> bool) -> nat
    decreases s.len(),
{
    if s.len() > 0 && p(s[0]) {
        1 + leading(s.skip(1), p)
    } else {
        0
    }
}

/// How many characters at the end of `s` satisfy `p`.
pub open spec fn trailing(s: Seq<char>, p: spec_fn(char) -> bool) -> nat
    decreases s.len(),
{
    if s.len() > 0 && p(s.last()) {
        1 + trailing(s.drop_last(), p)
    } else {
        0
    }
}

/// `leading(s, p)` is the only `k` such that the first `k` characters satisfy
/// `p` and the next one, if any, does not.
pub proof fn lemma_leading_is(s: Seq<char>, p: spec_fn(char) -> bool, k: int)
    requires
        0 <= k <= s.len(),
        forall|j: int| 0 <= j < k ==> p(#[trigger] s[j]),
        k == s.len() || !p(s[k]),
    ensures
        leading(s, p) == k,
    decreases k,
{
    if k > 0 {
        let t = s.skip(1);
        assert forall|j: int| 0 <= j < k - 1 implies p(#[trigger] t[j]) by {
            assert(t[j] == s[j + 1]);
        }
        lemma_leading_is(t, p, k - 1);
    }
}

/// The first `leading(s, p)` characters satisfy `p`; the next one does not.
pub proof fn lemma_leading(s: Seq<char>, p: spec_fn(char) -> bool)
    ensures
        leading(s, p) <= s.len(),
        forall|j: int| 0 <= j < leading(s, p) ==> p(#[trigger] s[j]),
        leading(s, p) < s.len() ==> !p(s[leading(s, p) as int]),
    decreases s.len(),
{
    if s.len() > 0 && p(s[0]) {
        let t = s.skip(1);
        lemma_leading(t, p);
        assert forall|j: int| 0 <= j < leading(s, p) implies p(#[trigger] s[j]) by {
            if j > 0 {
                assert(s[j] == t[j - 1]);
            }
        }
    }
}

/// `trailing(s, p)` is the only `k` such that the last `k` characters satisfy
/// `p` and the one before them, if any, does not.
pub proof fn lemma_trailing_is(s: Seq<char>, p: spec_fn(char) -> bool, k: int)
    requires
        0 <= k <= s.len(),
        forall|j: int| s.len() - k <= j < s.len() ==> p(#[trigger] s[j]),
        k == s.len() || !p(s[s.len() - k - 1]),
    ensures
        trailing(s, p) == k,
    decreases k,
{
    if k > 0 {
        let t = s.drop_last();
        assert forall|j: int| t.len() - (k - 1) <= j < t.len() implies p(#[trigger] t[j]) by {
            assert(t[j] == s[j]);
        }
        lemma_trailing_is(t, p, k - 1);
    }
}

/// The last `trailing(s, p)` characters satisfy `p`; the one before does not.
pub proof fn lemma_trailing(s: Seq<char>, p: spec_fn(char) -> bool)
    ensures
        trailing(s, p) <= s.len(),
        forall|j: int| s.len() - trailing(s, p) <= j < s.len() ==> p(#[trigger] s[j]),
        trailing(s, p) < s.len() ==> !p(s[s.len() - trailing(s, p) - 1]),
    decreases s.len(),
{
    if s.len() > 0 && p(s.last()) {
        let t = s.drop_last();
        lemma_trailing(t, p);
        assert forall|j: int| s.len() - trailing(s, p) <= j < s.len() implies p(
            #[trigger] s[j],
        ) by {
            if j < s.len() - 1 {
                assert(s[j] == t[j]);
            }
        }
    }
}

// ---------------------------------------------------------------------------
// White space and trimming
// ---------------------------------------------------------------------------

/// The characters with the Unicode property `White_Space`.
pub open spec fn is_whitespace(c: char) -> bool {
    let u = c as u32;
    ||| 0x09 <= u <= 0x0D
    ||| u == 0x20
    ||| u == 0x85
    ||| u == 0xA0
    ||| u == 0x1680
    ||| 0x2000 <= u <= 0x200A
    ||| u == 0x2028
    ||| u == 0x2029
    ||| u == 0x202F
    ||| u == 0x205F
    ||| u == 0x3000
}

/// The predicate "is white space".
pub open spec fn ws() -> spec_fn(char) -> bool {
    |c: char| is_whitespace(c)
}

/// The predicate "is the character `x`".
pub open spec fn is_char(x: char) -> spec_fn(char) -> bool {
    |c: char| c == x
}

/// The predicate "is not the character `x`".
pub open spec fn not_char(x: char) -> spec_fn(char) -> bool {
    |c: char| c != x
}

/// `s` without the characters at its two ends that satisfy `p`.
pub open spec fn stripped(s: Seq<char>, p: spec_fn(char) -> bool) -> Seq<char> {
    let t = s.skip(leading(s, p) as int);
    t.take(t.len() - trailing(t, p))
}

/// `s` without leading and trailing white space.
pub open spec fn trimmed(s: Seq<char>) -> Seq<char> {
    stripped(s, ws())
}

/// What is left of a text when the characters that satisfy `p` are taken
/// from its two ends is a part of the text, and neither its first nor its
/// last character satisfies `p`. So a trimmed text neither begins nor ends
/// with white space.
pub proof fn lemma_stripped_has_clean_ends(s: Seq<char>, p: spec_fn(char) -> bool)
    ensures
        stripped(s, p).len() <= s.len(),
        stripped(s, p) == s.subrange(
            leading(s, p) as int,
            (leading(s, p) + stripped(s, p).len()) as int,
        ),
        stripped(s, p).len() > 0 ==> !p(stripped(s, p)[0]) && !p(stripped(s, p).last()),
{
    lemma_leading(s, p);
    let t = s.skip(leading(s, p) as int);
    lemma_trailing(t, p);
    let u = stripped(s, p);
    assert(u =~= s.subrange(leading(s, p) as int, (leading(s, p) + u.len()) as int));
    if u.len() > 0 {
        assert(u[0] == t[0]);
        assert(u.last() == t[t.len() - trailing(t, p) - 1]);
    }
}

/// Whether `c` has the Unicode property `White_Space`.
pub fn char_is_whitespace(c: char) -> (b: bool)
    ensures
        b == is_whitespace(c),
{
    let u: u32 = c as u32;
    (0x09 <= u && u <= 0x0D) || u == 0x20 || u == 0x85 || u == 0xA0 || u == 0x1680 || (0x2000
        <= u && u <= 0x200A) || u == 0x2028 || u == 0x2029 || u == 0x202F || u == 0x205F || u
        == 0x3000
}

/// `v` without leading and trailing white space.
pub fn trim(v: &Vec<char>) -> (out: Vec<char>)
    ensures
        out@ == trimmed(v@),
{
    let n = v.len();
    let mut lo: usize = 0;
    while lo < n && char_is_whitespace(v[lo])
        invariant
            lo <= n == v.len(),
            forall|j: int| 0 <= j < lo ==> ws()(#[trigger] v[j]),
        decreases n - lo,
    {
        lo += 1;
    }
    let mut hi: usize = n;
    while hi > lo && char_is_whitespace(v[hi - 1])
        invariant
            lo <= hi <= n == v.len(),
            forall|j: int| hi <= j < n ==> ws()(#[trigger] v[j]),
        decreases hi,
    {
        hi -= 1;
    }
    proof {
        lemma_leading_is(v@, ws(), lo as int);
        let t = v@.skip(lo as int);
        assert forall|j: int| t.len() - (n - hi) <= j < t.len() implies ws()(#[trigger] t[j]) by {
            assert(t[j] == v[j + lo]);
        }
        lemma_trailing_is(t, ws(), n - hi);
        assert(t.take(t.len() - (n - hi)) =~= v@.subrange(lo as int, hi as int));
    }
    slice(v, lo, hi)
}

/// `v` without the copies of `x` at its two ends.
pub fn trim_matches(v: &Vec<char>, x: char) -> (out: Vec<char>)
    ensures
        out@ == stripped(v@, is_char(x)),
{
    let n = v.len();
    let mut lo: usize = 0;
    while lo < n && v[lo] == x
        invariant
            lo <= n == v.len(),
            forall|j: int| 0 <= j < lo ==> is_char(x)(#[trigger] v[j]),
        decreases n - lo,
    {
        lo += 1;
    }
    let mut hi: usize = n;
    while hi > lo && v[hi - 1] == x
        invariant
            lo <= hi <= n == v.len(),
            forall|j: int| hi <= j < n ==> is_char(x)(#[trigger] v[j]),
        decreases hi,
    {
        hi -= 1;
    }
    proof {
        lemma_leading_is(v@, is_char(x), lo as int);
        let t = v@.skip(lo as int);
        assert forall|j: int| t.len() - (n - hi) <= j < t.len() implies is_char(x)(
            #[trigger] t[j],
        ) by {
            assert(t[j] == v[j + lo]);
        }
        lemma_trailing_is(t, is_char(x), n - hi);
        assert(t.take(t.len() - (n - hi)) =~= v@.subrange(lo as int, hi as int));
    }
    slice(v, lo, hi)
}

// ---------------------------------------------------------------------------
// Searching and splitting
// ---------------------------------------------------------------------------

/// The index of the first `c` in `s`, or `s.len()` where there is none.
pub open spec fn index_of(s: Seq<char>, c: char) -> int {
    leading(s, not_char(c)) as int
}

/// The index of the last `c` in `s`, or `-1` where there is none.
pub open spec fn last_index_of(s: Seq<char>, c: char) -> int {
    s.len() - trailing(s, not_char(c)) - 1
}

/// `s` cut at its first `c`: what stands before it and what stands after.
pub open spec fn split_at_first(s: Seq<char>, c: char) -> Option<(Seq<char>, Seq<char>)> {
    let i = index_of(s, c);
    if 0 <= i < s.len() {
        Some((s.take(i), s.skip(i + 1)))
    } else {
        None
    }
}

/// `s` cut at its last `c`: what stands before it and what stands after.
pub open spec fn split_at_last(s: Seq<char>, c: char) -> Option<(Seq<char>, Seq<char>)> {
    let i = last_index_of(s, c);
    if 0 <= i < s.len() {
        Some((s.take(i), s.skip(i + 1)))
    } else {
        None
    }
}

/// What stands before the first `c` of `s`; all of `s` where there is none.
pub open spec fn before_first(s: Seq<char>, c: char) -> Seq<char> {
    s.take(index_of(s, c))
}

/// The index of the first `c` at or after `from`, or `v.len()`.
pub fn find_from(v: &Vec<char>, c: char, from: usize) -> (i: usize)
    requires
        from <= v.len(),
    ensures
        from <= i <= v.len(),
        i == from + index_of(v@.skip(from as int), c),
        i < v.len() ==> v[i as int] == c,
        forall|j: int| from <= j < i ==> v[j] != c,
{
    let mut i: usize = from;
    while i < v.len() && v[i] != c
        invariant
            from <= i <= v.len(),
            forall|j: int| from <= j < i ==> v[j] != c,
        decreases v.len() - i,
    {
        i += 1;
    }
    proof {
        let t = v@.skip(from as int);
        assert forall|j: int| 0 <= j < i - from implies not_char(c)(#[trigger] t[j]) by {
            assert(t[j] == v[j + from]);
        }
        lemma_leading_is(t, not_char(c), i - from);
    }
    i
}

/// Whether `c` occurs in `v`.
pub fn contains_char(v: &Vec<char>, c: char) -> (r: bool)
    ensures
        r == (index_of(v@, c) < v@.len()),
        r == v@.contains(c),
{
    let i = find_from(v, c, 0);
    proof {
        assert(v@.skip(0) =~= v@);
        if i < v.len() {
            assert(v@[i as int] == c);
        }
    }
    i < v.len()
}

/// `v` cut at its first `c`.
pub fn split_once(v: &Vec<char>, c: char) -> (r: Option<(Vec<char>, Vec<char>)>)
    ensures
        match r {
            Some((a, b)) => split_at_first(v@, c) == Some((a@, b@)),
            None => split_at_first(v@, c) is None,
        },
{
    let i = find_from(v, c, 0);
    proof {
        assert(v@.skip(0) =~= v@);
    }
    if i < v.len() {
        let a = slice(v, 0, i);
        let b = slice(v, i + 1, v.len());
        proof {
            assert(v@.subrange(0, i as int) =~= v@.take(i as int));
            assert(v@.subrange(i + 1, v.len() as int) =~= v@.skip(i + 1));
        }
        Some((a, b))
    } else {
        None
    }
}

/// `v` cut at its last `c`.
pub fn rsplit_once(v: &Vec<char>, c: char) -> (r: Option<(Vec<char>, Vec<char>)>)
    ensures
        match r {
            Some((a, b)) => split_at_last(v@, c) == Some((a@, b@)),
            None => split_at_last(v@, c) is None,
        },
{
    let n = v.len();
    let mut hi: usize = n;
    while hi > 0 && v[hi - 1] != c
        invariant
            hi <= n == v.len(),
            forall|j: int| hi <= j < n ==> not_char(c)(#[trigger] v[j]),
        decreases hi,
    {
        hi -= 1;
    }
    proof {
        lemma_trailing_is(v@, not_char(c), n - hi);
    }
    if hi > 0 {
        let a = slice(v, 0, hi - 1);
        let b = slice(v, hi, n);
        proof {
            assert(v@.subrange(0, hi - 1) =~= v@.take(hi - 1));
            assert(v@.subrange(hi as int, n as int) =~= v@.skip(hi as int));
        }
        Some((a, b))
    } else {
        None
    }
}

/// Whether `p` is a prefix of `s`.
pub open spec fn has_prefix(s: Seq<char>, p: Seq<char>) -> bool {
    p.len() <= s.len() && s.take(p.len() as int) == p
}

/// Whether `p` is a prefix of `v`.
pub fn starts_with(v: &Vec<char>, p: &Vec<char>) -> (r: bool)
    ensures
        r == has_prefix(v@, p@),
{
    if p.len() > v.len() {
        return false;
    }
    let mut i: usize = 0;
    while i < p.len()
        invariant
            i <= p.len() <= v.len(),
            forall|j: int| 0 <= j < i ==> v[j] == p[j],
        decreases p.len() - i,
    {
        if v[i] != p[i] {
            proof {
                assert(v@.take(p.len() as int)[i as int] == v[i as int]);
            }
            return false;
        }
        i += 1;
    }
    assert(v@.take(p.len() as int) =~= p@);
    true
}

/// `v` without the prefix `p`, where it has that prefix.
pub fn strip_prefix(v: &Vec<char>, p: &Vec<char>) -> (r: Option<Vec<char>>)
    ensures
        match r {
            Some(rest) => has_prefix(v@, p@) && rest@ == v@.skip(p@.len() as int),
            None => !has_prefix(v@, p@),
        },
{
    if starts_with(v, p) {
        let rest = slice(v, p.len(), v.len());
        assert(v@.subrange(p.len() as int, v.len() as int) =~= v@.skip(p.len() as int));
        Some(rest)
    } else {
        None
    }
}

/// Whether `needle` occurs in `hay` as a contiguous run.
pub open spec fn has_infix(hay: Seq<char>, needle: Seq<char>) -> bool {
    exists|i: int|
        0 <= i <= hay.len() - needle.len() && #[trigger] hay.subrange(i, i + needle.len())
            == needle
}

/// Whether `needle` occurs in `hay` as a contiguous run.
pub fn contains(hay: &Vec<char>, needle: &Vec<char>) -> (r: bool)
    ensures
        r == has_infix(hay@, needle@),
{
    if needle.len() > hay.len() {
        return false;
    }
    let last: usize = hay.len() - needle.len();
    let mut i: usize = 0;
    loop
        invariant
            i <= last,
            last == hay.len() - needle.len(),
            needle.len() <= hay.len(),
            forall|k: int| 0 <= k < i ==> #[trigger] hay@.subrange(k, k + needle.len()) != needle@,
        decreases last - i,
    {
        let mut j: usize = 0;
        let mut same = true;
        while j < needle.len()
            invariant
                j <= needle.len(),
                i <= last,
                last == hay.len() - needle.len(),
                needle.len() <= hay.len(),
                same ==> forall|k: int| 0 <= k < j ==> hay[i + k] == needle[k],
                !same ==> hay@.subrange(i as int, i + needle.len()) != needle@,
            decreases needle.len() - j,
        {
            if hay[i + j] != needle[j] {
                same = false;
                proof {
                    assert(hay@.subrange(i as int, i + needle.len())[j as int] == hay[i + j]);
                }
            }
            j += 1;
        }
        if same {
            assert(hay@.subrange(i as int, i + needle.len()) =~= needle@);
            return true;
        }
        if i == last {
            return false;
        }
        i += 1;
    }
}

/// `s` with every `from` replaced by `to`.
pub open spec fn replaced(s: Seq<char>, from: char, to: char) -> Seq<char> {
    Seq::new(
        s.len(),
        |i: int|
            if s[i] == from {
                to
            } else {
                s[i]
            },
    )
}

/// `v` with every `from` replaced by `to`.
pub fn replace(v: &Vec<char>, from: char, to: char) -> (out: Vec<char>)
    ensures
        out@ == replaced(v@, from, to),
{
    let mut out: Vec<char> = Vec::new();
    let mut i: usize = 0;
    while i < v.len()
        invariant
            i <= v.len(),
            out.len() == i,
            forall|j: int| 0 <= j < i ==> out[j] == replaced(v@, from, to)[j],
        decreases v.len() - i,
    {
        out.push(
            if v[i] == from {
                to
            } else {
                v[i]
            },
        );
        i += 1;
    }
    assert(out@ =~= replaced(v@, from, to));
    out
}

/// An owned copy of `a`.
pub fn owned(a: &str) -> (out: String)
    ensures
        out@ == a@,
{
    a.to_owned()
}

/// `a` followed by `b`.
pub fn concat2(a: &str, b: &str) -> (out: String)
    ensures
        out@ == a@ + b@,
{
    let mut out = a.to_owned();
    out.append(b);
    out
}

/// `a` followed by `b` and then by `c`.
pub fn concat3(a: &str, b: &str, c: &str) -> (out: String)
    ensures
        out@ == a@ + b@ + c@,
{
    let mut out = a.to_owned();
    out.append(b);
    out.append(c);
    out
}

/// An owned copy of each string of `v`.
pub fn clone_strings(v: &Vec<String>) -> (out: Vec<String>)
    ensures
        string_views(out@) == string_views(v@),
        out@.len() == v@.len(),
        forall|i: int| 0 <= i < v@.len() ==> out@[i]@ == v@[i]@,
{
    let mut out: Vec<String> = Vec::new();
    let mut i: usize = 0;
    while i < v.len()
        invariant
            i <= v.len(),
            out.len() == i,
            forall|j: int| 0 <= j < i ==> out[j]@ == v[j]@,
        decreases v.len() - i,
    {
        out.push(v[i].clone());
        i += 1;
    }
    assert(string_views(out@) =~= string_views(v@));
    out
}

/// The view of an optional string.
pub open spec fn option_view(o: Option<String>) -> Option<Seq<char>> {
    match o {
        Some(s) => Some(s@),
        None => None,
    }
}

} // verus!
