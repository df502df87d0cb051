//! Character-sequence helpers that the normalizer and the extractor share.
use vstd::prelude::*;
use vstd::std_specs::iter::IteratorSpec;

verus! {

/// `String::push` appends one character to the end of the string: the new
/// contents are the old ones followed by `c`.
pub assume_specification[ String::push ](s: &mut String, c: char)
    ensures
        final(s)@ == old(s)@.push(c),
;

/// The characters of `s`, in order.
pub fn to_chars(s: &str) -> (v: Vec<char>)
    ensures
        v@ == s@,
{
    let mut v: Vec<char> = Vec::new();
    let chars = s.chars();
    for c in it: chars
        invariant
            it.seq() == s@,
            v@ == it.seq().take(it.index()),
    {
        v.push(c);
    }
    assert(v@ =~= s@);
    v
}

/// The string made of the characters of `v`, in order.
pub fn from_chars(v: &Vec<char>) -> (s: String)
    ensures
        s@ == v@,
{
    let mut s = String::new();
    let mut i: usize = 0;
    while i < v.len()
        invariant
            i <= v.len(),
            s@ == v@.take(i as int),
        decreases v.len() - i,
    {
        s.push(v[i]);
        i += 1;
        assert(v@.take(i as int) =~= v@.take(i - 1).push(v@[i - 1]));
    }
    assert(v@.take(v.len() as int) =~= v@);
    s
}

/// The views of a list of strings.
pub open spec fn string_views(v: Seq<String>) -> Seq<Seq<char>> {
    Seq::new(v.len(), |i: int| v[i]@)
}

/// Whether `c` has the Unicode `White_Space` property.
pub uninterp spec fn whitespace_char(c: char) -> bool;

/// `char::is_whitespace` tells whether the character has the Unicode
/// `White_Space` property; the answer depends on the character alone.
#[verifier::external_body]
pub(crate) fn is_whitespace(c: char) -> (b: bool)
    ensures
        b == whitespace_char(c),
{
    c.is_whitespace()
}

/// The uppercase form of a text, as Unicode's case mapping gives it.
pub uninterp spec fn uppercase_of(s: Seq<char>) -> Seq<char>;

/// `str::to_uppercase` returns the uppercase equivalent of the text; the
/// mapping is Unicode's and depends on the text alone.
#[verifier::external_body]
pub(crate) fn uppercase(s: &str) -> (u: String)
    ensures
        u@ == uppercase_of(s@),
{
    s.to_uppercase()
}

/// `p` stands in `s` at index `i`.
pub open spec fn occurs_at(s: Seq<char>, p: Seq<char>, i: int) -> bool {
    0 <= i && i + p.len() <= s.len() && s.subrange(i, i + p.len()) == p
}

/// `p` stands somewhere in `s`.
pub open spec fn contains_seq(s: Seq<char>, p: Seq<char>) -> bool {
    exists|i: int| occurs_at(s, p, i)
}

/// `s` with every occurrence of `p` replaced by `r`, scanning from the left
/// and resuming after each occurrence. An empty `p` replaces nothing.
pub open spec fn replaced(s: Seq<char>, p: Seq<char>, r: Seq<char>) -> Seq<char>
    decreases s.len(),
{
    if p.len() == 0 || s.len() < p.len() {
        s
    } else if occurs_at(s, p, 0) {
        r + replaced(s.skip(p.len() as int), p, r)
    } else {
        seq![s[0]] + replaced(s.skip(1), p, r)
    }
}

/// How many whitespace characters `s` begins with.
pub open spec fn leading_whitespace(s: Seq<char>) -> nat
    decreases s.len(),
{
    if s.len() > 0 && whitespace_char(s[0]) {
        1 + leading_whitespace(s.skip(1))
    } else {
        0
    }
}

/// How many whitespace characters `s` ends with.
pub open spec fn trailing_whitespace(s: Seq<char>) -> nat
    decreases s.len(),
{
    if s.len() > 0 && whitespace_char(s.last()) {
        1 + trailing_whitespace(s.drop_last())
    } else {
        0
    }
}

/// `s` without its leading and trailing whitespace.
pub open spec fn trimmed(s: Seq<char>) -> Seq<char> {
    let t = s.skip(leading_whitespace(s) as int);
    t.take(t.len() - trailing_whitespace(t))
}

/// How many copies of `c` the text `s` begins with.
pub open spec fn leading_run(s: Seq<char>, c: char) -> nat
    decreases s.len(),
{
    if s.len() > 0 && s[0] == c {
        1 + leading_run(s.skip(1), c)
    } else {
        0
    }
}

/// Index of the first line feed of `s`, or the length of `s` if it has none.
pub open spec fn line_end(s: Seq<char>) -> nat
    decreases s.len(),
{
    if s.len() == 0 || s[0] == '\n' {
        0
    } else {
        1 + line_end(s.skip(1))
    }
}

/// The first line of a non-empty `s`: the text before the first line feed,
/// less one carriage return that stands directly before that line feed.
pub open spec fn first_line(s: Seq<char>) -> Seq<char> {
    let n = line_end(s) as int;
    if n < s.len() && n > 0 && s[n - 1] == '\r' {
        s.take(n - 1)
    } else {
        s.take(n)
    }
}

/// What follows the first line of `s` and its line feed.
pub open spec fn after_first_line(s: Seq<char>) -> Seq<char> {
    let n = line_end(s) as int;
    if n < s.len() {
        s.skip(n + 1)
    } else {
        Seq::empty()
    }
}

/// The lines of `s`. A line ends at a line feed, or at a carriage return
/// directly followed by one; a final line ending opens no further line.
pub open spec fn split_lines(s: Seq<char>) -> Seq<Seq<char>>
    decreases s.len(),
{
    if s.len() == 0 {
        seq![]
    } else {
        seq![first_line(s)] + split_lines(after_first_line(s))
    }
}

/// Whether `p` stands in `s` at index `i`.
pub fn matches_at(s: &Vec<char>, p: &Vec<char>, i: usize) -> (b: bool)
    ensures
        b == occurs_at(s@, p@, i as int),
{
    if p.len() > s.len() || i > s.len() - p.len() {
        return false;
    }
    let mut k: usize = 0;
    while k < p.len()
        invariant
            k <= p.len(),
            i + p.len() <= s.len(),
            forall|j: int| 0 <= j < k ==> s@[i + j] == p@[j],
        decreases p.len() - k,
    {
        if s[i + k] != p[k] {
            assert(s@.subrange(i as int, i + p.len())[k as int] == s@[i + k]);
            return false;
        }
        k += 1;
    }
    assert(s@.subrange(i as int, i + p.len()) =~= p@);
    true
}

/// Whether `s` begins with `p`.
pub fn starts_with(s: &Vec<char>, p: &Vec<char>) -> (b: bool)
    ensures
        b == p@.is_prefix_of(s@),
{
    let b = matches_at(s, p, 0);
    proof {
        if p@.len() <= s@.len() {
            assert(s@.subrange(0, p@.len() as int) =~= s@.subrange(0, 0int + p@.len()));
        }
    }
    b
}

/// Whether `p` stands somewhere in `s`.
pub fn contains(s: &Vec<char>, p: &Vec<char>) -> (b: bool)
    ensures
        b == contains_seq(s@, p@),
{
    if p.len() > s.len() {
        return false;
    }
    let last: usize = s.len() - p.len();
    let mut i: usize = 0;
    loop
        invariant
            last == s.len() - p.len(),
            i <= last,
            forall|j: int| 0 <= j < i ==> !occurs_at(s@, p@, j),
        decreases last - i,
    {
        if matches_at(s, p, i) {
            return true;
        }
        if i == last {
            return false;
        }
        i += 1;
    }
}

/// Appends the characters of `r` to `out`.
pub fn append_chars(out: &mut Vec<char>, r: &Vec<char>)
    ensures
        final(out)@ == old(out)@ + r@,
{
    let mut k: usize = 0;
    while k < r.len()
        invariant
            k <= r.len(),
            out@ == old(out)@ + r@.take(k as int),
        decreases r.len() - k,
    {
        out.push(r[k]);
        k += 1;
        assert(r@.take(k as int) =~= r@.take(k - 1).push(r@[k - 1]));
    }
    assert(r@.take(r.len() as int) =~= r@);
}

/// `s` with every occurrence of `p` replaced by `r`, from left to right.
pub fn replace(s: &Vec<char>, p: &Vec<char>, r: &Vec<char>) -> (out: Vec<char>)
    ensures
        out@ == replaced(s@, p@, r@),
{
    let mut out: Vec<char> = Vec::new();
    let mut i: usize = 0;
    assert(s@.skip(0) =~= s@);
    while i < s.len()
        invariant
            i <= s.len(),
            out@ + replaced(s@.skip(i as int), p@, r@) == replaced(s@, p@, r@),
        decreases s.len() - i,
    {
        let ghost rest = s@.skip(i as int);
        let ghost before = out@;
        if p.len() > 0 && matches_at(s, p, i) {
            proof {
                assert(rest.subrange(0, 0int + p@.len()) =~= s@.subrange(i as int, i + p@.len()));
                assert(rest.skip(p@.len() as int) =~= s@.skip(i + p@.len()));
                assert((before + r@) + replaced(s@.skip(i + p@.len()), p@, r@) =~= before + (r@
                    + replaced(s@.skip(i + p@.len()), p@, r@)));
            }
            append_chars(&mut out, r);
            i += p.len();
        } else {
            proof {
                if p@.len() > 0 && rest.len() >= p@.len() {
                    assert(rest.subrange(0, 0int + p@.len()) =~= s@.subrange(
                        i as int,
                        i + p@.len(),
                    ));
                }
                assert(rest.skip(1) =~= s@.skip(i + 1));
                if p@.len() == 0 || rest.len() < p@.len() {
                    lemma_replaced_short(rest, p@, r@);
                    lemma_replaced_short(rest.skip(1), p@, r@);
                    assert(rest =~= seq![rest[0]] + rest.skip(1));
                }
                assert(before.push(s@[i as int]) + replaced(s@.skip(i + 1), p@, r@) =~= before + (
                seq![rest[0]] + replaced(rest.skip(1), p@, r@)));
            }
            out.push(s[i]);
            i += 1;
        }
    }
    assert(s@.skip(s@.len() as int) =~= Seq::<char>::empty());
    assert(out@ + Seq::<char>::empty() =~= out@);
    out
}

/// The characters of `s` from index `a` up to, not including, index `b`.
pub fn slice_chars(s: &Vec<char>, a: usize, b: usize) -> (t: Vec<char>)
    requires
        a <= b <= s.len(),
    ensures
        t@ == s@.subrange(a as int, b as int),
{
    let mut t: Vec<char> = Vec::new();
    let mut i: usize = a;
    while i < b
        invariant
            a <= i <= b <= s.len(),
            t@ == s@.subrange(a as int, i as int),
        decreases b - i,
    {
        t.push(s[i]);
        i += 1;
        assert(s@.subrange(a as int, i as int) =~= s@.subrange(a as int, i - 1).push(s@[i - 1]));
    }
    t
}

/// How many copies of `c` the text begins with.
pub fn leading_count(s: &Vec<char>, c: char) -> (n: usize)
    ensures
        n == leading_run(s@, c),
{
    let mut n: usize = 0;
    assert(s@.skip(0) =~= s@);
    while n < s.len() && s[n] == c
        invariant
            n <= s.len(),
            leading_run(s@, c) == n + leading_run(s@.skip(n as int), c),
        decreases s.len() - n,
    {
        assert(s@.skip(n as int).skip(1) =~= s@.skip(n + 1));
        n += 1;
    }
    n
}

/// The text without its leading and trailing whitespace.
pub fn trim(s: &Vec<char>) -> (t: Vec<char>)
    ensures
        t@ == trimmed(s@),
{
    let mut a: usize = 0;
    assert(s@.skip(0) =~= s@);
    loop
        invariant
            a <= s.len(),
            leading_whitespace(s@) == a + leading_whitespace(s@.skip(a as int)),
        ensures
            a <= s.len(),
            a == leading_whitespace(s@),
        decreases s.len() - a,
    {
        if a >= s.len() {
            break ;
        }
        if !is_whitespace(s[a]) {
            break ;
        }
        assert(s@.skip(a as int).skip(1) =~= s@.skip(a + 1));
        a += 1;
    }
    let ghost rest = s@.skip(a as int);
    let mut b: usize = s.len();
    assert(rest.take(b - a) =~= rest);
    loop
        invariant
            a <= b <= s.len(),
            rest == s@.skip(a as int),
            trailing_whitespace(rest) == (s.len() - b) + trailing_whitespace(rest.take(b - a)),
        ensures
            a <= b <= s.len(),
            s.len() - b == trailing_whitespace(rest),
        decreases b,
    {
        if b <= a {
            break ;
        }
        if !is_whitespace(s[b - 1]) {
            assert(rest.take(b - a).last() == s@[b - 1]);
            break ;
        }
        assert(rest.take(b - a).last() == s@[b - 1]);
        assert(rest.take(b - a).drop_last() =~= rest.take(b - a - 1));
        b -= 1;
    }
    let t = slice_chars(s, a, b);
    assert(t@ =~= rest.take(rest.len() - trailing_whitespace(rest)));
    t
}

/// The line of `s` that begins at index `start`, and the index at which the
/// next line begins.
pub fn line_at(s: &Vec<char>, start: usize) -> (r: (Vec<char>, usize))
    requires
        start < s.len(),
    ensures
        r.0@ == first_line(s@.skip(start as int)),
        start < r.1 <= s.len(),
        s@.skip(r.1 as int) == after_first_line(s@.skip(start as int)),
{
    let ghost rest = s@.skip(start as int);
    let mut j: usize = start;
    assert(s@.skip(j as int) =~= rest);
    while j < s.len() && s[j] != '\n'
        invariant
            start <= j <= s.len(),
            rest == s@.skip(start as int),
            line_end(rest) == (j - start) + line_end(s@.skip(j as int)),
        decreases s.len() - j,
    {
        assert(s@.skip(j as int).skip(1) =~= s@.skip(j + 1));
        j += 1;
    }
    assert(line_end(rest) == j - start);
    if j < s.len() {
        assert(rest.skip(j - start + 1) =~= s@.skip(j + 1));
        if j > start && s[j - 1] == '\r' {
            let line = slice_chars(s, start, j - 1);
            assert(line@ =~= rest.take(j - start - 1));
            (line, j + 1)
        } else {
            let line = slice_chars(s, start, j);
            assert(line@ =~= rest.take(j - start));
            (line, j + 1)
        }
    } else {
        let line = slice_chars(s, start, j);
        assert(line@ =~= rest.take(j - start));
        assert(s@.skip(j as int) =~= Seq::<char>::empty());
        (line, j)
    }
}

/// Whether two texts are the same.
pub fn same_chars(a: &Vec<char>, b: &Vec<char>) -> (r: bool)
    ensures
        r == (a@ == b@),
{
    if a.len() != b.len() {
        return false;
    }
    let r = matches_at(a, b, 0);
    proof {
        assert(a@.subrange(0, 0int + b@.len()) =~= a@);
    }
    r
}

/// A text shorter than the pattern, or any text under an empty pattern, is
/// left as it is.
pub proof fn lemma_replaced_short(s: Seq<char>, p: Seq<char>, r: Seq<char>)
    requires
        p.len() == 0 || s.len() < p.len(),
    ensures
        replaced(s, p, r) == s,
{
}

} // verus!
