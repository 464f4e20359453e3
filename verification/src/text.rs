//! Character-level text primitives over the `Seq<char>` view of strings.
//!
//! Every routine here works on a vector of characters together with a range
//! `lo..hi` inside it, so callers can scan the pieces of a larger text
//! without copying them.

use vstd::prelude::*;
use vstd::utf8::{decode_utf8, valid_utf8};

verus! {

// ---------------------------------------------------------------------------
// Basic conversions
// ---------------------------------------------------------------------------

/// The characters of `s`, in order.
pub fn chars_of(s: &str) -> (v: Vec<char>)
    ensures
        v@ == s@,
{
    let mut v: Vec<char> = Vec::new();
    for c in it: s.chars()
        invariant
            it.seq() == s@,
            v@ == it.seq().take(it.index() as int),
    {
        v.push(c);
    }
    v
}

/// An owned copy of the characters `lo..hi` of `s`.
pub fn substring(s: &str, lo: usize, hi: usize) -> (r: String)
    requires
        lo <= hi <= s@.len(),
    ensures
        r@ == s@.subrange(lo as int, hi as int),
{
    s.substring_char(lo, hi).to_owned()
}

/// An owned copy of `s`.
pub fn owned(s: &str) -> (r: String)
    ensures
        r@ == s@,
{
    s.to_owned()
}

/// `a` followed by `b`.
pub fn concat2(a: &str, b: &str) -> (r: String)
    ensures
        r@ == a@ + b@,
{
    let mut r = a.to_owned();
    r.append(b);
    r
}

/// `a`, `b` and `c`, one after the other.
pub fn concat3(a: &str, b: &str, c: &str) -> (r: String)
    ensures
        r@ == a@ + b@ + c@,
{
    let mut r = a.to_owned();
    r.append(b);
    r.append(c);
    r
}

/// `a`, `b`, `c` and `d`, one after the other.
pub fn concat4(a: &str, b: &str, c: &str, d: &str) -> (r: String)
    ensures
        r@ == a@ + b@ + c@ + d@,
{
    let mut r = a.to_owned();
    r.append(b);
    r.append(c);
    r.append(d);
    r
}

// ---------------------------------------------------------------------------
// Equality and prefixes
// ---------------------------------------------------------------------------

/// Whether `pat` occurs in `v` starting at index `i`.
pub open spec fn occurs_at(v: Seq<char>, pat: Seq<char>, i: int) -> bool {
    0 <= i && i + pat.len() <= v.len() && v.subrange(i, i + pat.len()) == pat
}

/// Whether the characters of `v` from `i` on begin with `pat`.
pub fn matches_at(v: &Vec<char>, i: usize, pat: &Vec<char>) -> (r: bool)
    ensures
        r == occurs_at(v@, pat@, i as int),
{
    if i > v.len() || pat.len() > v.len() - i {
        return false;
    }
    let mut k: usize = 0;
    while k < pat.len()
        invariant
            i + pat.len() <= v.len(),
            k <= pat.len(),
            forall|j: int| 0 <= j < k ==> v@[i + j] == pat@[j],
        decreases pat.len() - k,
    {
        if v[i + k] != pat[k] {
            assert(v@.subrange(i as int, i + pat.len())[k as int] != pat@[k as int]);
            return false;
        }
        k += 1;
    }
    assert(v@.subrange(i as int, i + pat.len()) =~= pat@);
    true
}

/// Whether the range `lo..hi` of `v` holds exactly the characters of `pat`.
pub fn range_eq(v: &Vec<char>, lo: usize, hi: usize, pat: &Vec<char>) -> (r: bool)
    requires
        lo <= hi <= v.len(),
    ensures
        r == (v@.subrange(lo as int, hi as int) == pat@),
{
    if hi - lo != pat.len() {
        assert(v@.subrange(lo as int, hi as int).len() != pat@.len());
        return false;
    }
    matches_at(v, lo, pat)
}

/// Whether the range `lo..hi` of `v` equals the text `lit`.
pub fn range_is(v: &Vec<char>, lo: usize, hi: usize, lit: &str) -> (r: bool)
    requires
        lo <= hi <= v.len(),
    ensures
        r == (v@.subrange(lo as int, hi as int) == lit@),
{
    let p = chars_of(lit);
    range_eq(v, lo, hi, &p)
}

/// Whether two strings hold the same characters.
pub fn str_eq(a: &str, b: &str) -> (r: bool)
    ensures
        r == (a@ == b@),
{
    let x = chars_of(a);
    let r = range_is(&x, 0, x.len(), b);
    assert(x@.subrange(0, x@.len() as int) =~= x@);
    r
}

/// Whether `s` begins with `prefix`.
pub open spec fn has_prefix(s: Seq<char>, prefix: Seq<char>) -> bool {
    prefix.len() <= s.len() && s.take(prefix.len() as int) == prefix
}

/// Whether `s` ends with `suffix`.
pub open spec fn has_suffix(s: Seq<char>, suffix: Seq<char>) -> bool {
    suffix.len() <= s.len() && s.skip(s.len() - suffix.len()) == suffix
}

/// Whether the range `lo..hi` of `v` begins with `lit`.
pub fn range_starts_with(v: &Vec<char>, lo: usize, hi: usize, lit: &str) -> (r: bool)
    requires
        lo <= hi <= v.len(),
    ensures
        r == has_prefix(v@.subrange(lo as int, hi as int), lit@),
{
    let p = chars_of(lit);
    if p.len() > hi - lo {
        return false;
    }
    let r = matches_at(v, lo, &p);
    assert(v@.subrange(lo as int, hi as int).take(p.len() as int) =~= v@.subrange(
        lo as int,
        lo + p.len(),
    ));
    r
}

/// Whether the range `lo..hi` of `v` ends with `lit`.
pub fn range_ends_with(v: &Vec<char>, lo: usize, hi: usize, lit: &str) -> (r: bool)
    requires
        lo <= hi <= v.len(),
    ensures
        r == has_suffix(v@.subrange(lo as int, hi as int), lit@),
{
    let p = chars_of(lit);
    if p.len() > hi - lo {
        return false;
    }
    let r = matches_at(v, hi - p.len(), &p);
    assert(v@.subrange(lo as int, hi as int).skip(hi - lo - p.len()) =~= v@.subrange(
        hi - p.len(),
        hi as int,
    ));
    r
}

/// Whether `s` begins with `prefix`.
pub fn str_starts_with(s: &str, prefix: &str) -> (r: bool)
    ensures
        r == has_prefix(s@, prefix@),
{
    let v = chars_of(s);
    let r = range_starts_with(&v, 0, v.len(), prefix);
    assert(v@.subrange(0, v@.len() as int) =~= v@);
    r
}

/// Whether `c` occurs in `s`.
pub fn str_contains_char(s: &str, c: char) -> (r: bool)
    ensures
        r == s@.contains(c),
{
    let v = chars_of(s);
    let mut i: usize = 0;
    while i < v.len()
        invariant
            v@ == s@,
            i <= v.len(),
            forall|j: int| 0 <= j < i ==> v@[j] != c,
        decreases v.len() - i,
    {
        if v[i] == c {
            assert(s@[i as int] == c);
            return true;
        }
        i += 1;
    }
    false
}


// ---------------------------------------------------------------------------
// Whitespace and trimming
// ---------------------------------------------------------------------------

/// Unicode `White_Space`, the set that `char::is_whitespace` tests.
pub open spec fn is_ws(c: char) -> bool {
    ||| c == '\t'
    ||| c == '\n'
    ||| c == '\u{0B}'
    ||| c == '\u{0C}'
    ||| c == '\r'
    ||| c == ' '
    ||| c == '\u{85}'
    ||| c == '\u{A0}'
    ||| c == '\u{1680}'
    ||| ('\u{2000}' <= c && c <= '\u{200A}')
    ||| c == '\u{2028}'
    ||| c == '\u{2029}'
    ||| c == '\u{202F}'
    ||| c == '\u{205F}'
    ||| c == '\u{3000}'
}

/// Executable form of `is_ws`.
pub fn is_ws_char(c: char) -> (r: bool)
    ensures
        r == is_ws(c),
{
    c == '\t' || c == '\n' || c == '\u{0B}' || c == '\u{0C}' || c == '\r' || c == ' ' || c
        == '\u{85}' || c == '\u{A0}' || c == '\u{1680}' || ('\u{2000}' <= c && c <= '\u{200A}')
        || c == '\u{2028}' || c == '\u{2029}' || c == '\u{202F}' || c == '\u{205F}' || c
        == '\u{3000}'
}

/// `s` without its leading whitespace.
pub open spec fn trim_start(s: Seq<char>) -> Seq<char>
    decreases s.len(),
{
    if s.len() > 0 && is_ws(s[0]) {
        trim_start(s.drop_first())
    } else {
        s
    }
}

/// `s` without its trailing whitespace.
pub open spec fn trim_end(s: Seq<char>) -> Seq<char>
    decreases s.len(),
{
    if s.len() > 0 && is_ws(s.last()) {
        trim_end(s.drop_last())
    } else {
        s
    }
}

/// `s` without leading and trailing whitespace.
pub open spec fn trim(s: Seq<char>) -> Seq<char> {
    trim_end(trim_start(s))
}

/// The bounds, inside `lo..hi`, of that range with its trailing whitespace removed.
pub fn trim_end_bound(v: &Vec<char>, lo: usize, hi: usize) -> (b: usize)
    requires
        lo <= hi <= v.len(),
    ensures
        lo <= b <= hi,
        v@.subrange(lo as int, b as int) == trim_end(v@.subrange(lo as int, hi as int)),
{
    let mut b = hi;
    while b > lo && is_ws_char(v[b - 1])
        invariant
            lo <= b <= hi <= v.len(),
            trim_end(v@.subrange(lo as int, hi as int)) == trim_end(
                v@.subrange(lo as int, b as int),
            ),
        decreases b,
    {
        assert(v@.subrange(lo as int, b as int).drop_last() =~= v@.subrange(lo as int, b - 1));
        b -= 1;
    }
    b
}

/// The bounds, inside `lo..hi`, of that range trimmed at both ends.
pub fn trim_bounds(v: &Vec<char>, lo: usize, hi: usize) -> (r: (usize, usize))
    requires
        lo <= hi <= v.len(),
    ensures
        lo <= r.0 <= r.1 <= hi,
        v@.subrange(r.0 as int, r.1 as int) == trim(v@.subrange(lo as int, hi as int)),
{
    let mut a = lo;
    while a < hi && is_ws_char(v[a])
        invariant
            lo <= a <= hi <= v.len(),
            trim_start(v@.subrange(lo as int, hi as int)) == trim_start(
                v@.subrange(a as int, hi as int),
            ),
        decreases hi - a,
    {
        assert(v@.subrange(a as int, hi as int).drop_first() =~= v@.subrange(a + 1, hi as int));
        a += 1;
    }
    let b = trim_end_bound(v, a, hi);
    (a, b)
}

/// `s` trimmed at both ends.
pub fn str_trim(s: &str) -> (r: String)
    ensures
        r@ == trim(s@),
{
    let v = chars_of(s);
    let (a, b) = trim_bounds(&v, 0, v.len());
    assert(v@.subrange(0, v@.len() as int) =~= v@);
    substring(s, a, b)
}

// ---------------------------------------------------------------------------
// Splitting
// ---------------------------------------------------------------------------

/// The pieces of `s` between the characters that satisfy `sep`, as `str::split`
/// yields them: one more piece than there are separators, empty pieces kept.
pub open spec fn split_pieces<A>(s: Seq<A>, sep: spec_fn(A) -> bool) -> Seq<Seq<A>>
    decreases s.len(),
{
    if s.len() == 0 {
        seq![Seq::empty()]
    } else {
        let prev = split_pieces(s.drop_last(), sep);
        if sep(s.last()) {
            prev.push(Seq::empty())
        } else {
            prev.update(prev.len() - 1, prev.last().push(s.last()))
        }
    }
}

/// The separator predicate "is the character `c`".
pub open spec fn is_char(c: char) -> spec_fn(char) -> bool {
    |x: char| x == c
}

/// The separator predicate "is whitespace".
pub open spec fn whitespace() -> spec_fn(char) -> bool {
    |x: char| is_ws(x)
}

/// The predicate "is a nonempty piece".
pub open spec fn nonempty() -> spec_fn(Seq<char>) -> bool {
    |p: Seq<char>| p.len() > 0
}

/// The texts that a list of ranges denotes inside `s`.
pub open spec fn range_texts(s: Seq<char>, r: Seq<(usize, usize)>) -> Seq<Seq<char>> {
    r.map_values(|p: (usize, usize)| s.subrange(p.0 as int, p.1 as int))
}

/// Every range of `r` lies inside `lo..hi` and is well ordered.
pub open spec fn ranges_within(r: Seq<(usize, usize)>, lo: int, hi: int) -> bool {
    forall|k: int| 0 <= k < r.len() ==> lo <= (#[trigger] r[k]).0 <= r[k].1 <= hi
}

/// `str::split_whitespace`: the nonempty pieces between whitespace characters.
pub open spec fn words(s: Seq<char>) -> Seq<Seq<char>> {
    split_pieces(s, whitespace()).filter(nonempty())
}

/// `str::lines`: the text split at `\n`, a `\r` before each `\n` dropped,
/// and no final empty line after a closing `\n`.
pub open spec fn lines(s: Seq<char>) -> Seq<Seq<char>> {
    let parts = split_pieces(s, is_char('\n'));
    let full = parts.drop_last().map_values(|p: Seq<char>| strip_cr(p));
    if parts.last().len() == 0 {
        full
    } else {
        full.push(parts.last())
    }
}

/// `p` without one trailing `\r`.
pub open spec fn strip_cr(p: Seq<char>) -> Seq<char> {
    if p.len() > 0 && p.last() == '\r' {
        p.drop_last()
    } else {
        p
    }
}

/// A split of any text has at least one piece.
pub proof fn lemma_split_nonempty<A>(s: Seq<A>, sep: spec_fn(A) -> bool)
    ensures
        split_pieces(s, sep).len() >= 1,
    decreases s.len(),
{
    if s.len() > 0 {
        lemma_split_nonempty(s.drop_last(), sep);
    }
}

/// One step of a left-to-right scan that splits at single characters.
pub proof fn lemma_split_step<A>(v: Seq<A>, lo: int, i: int, sep: spec_fn(A) -> bool)
    requires
        0 <= lo <= i < v.len(),
    ensures
        split_pieces(v.subrange(lo, i + 1), sep) == ({
            let prev = split_pieces(v.subrange(lo, i), sep);
            if sep(v[i]) {
                prev.push(Seq::empty())
            } else {
                prev.update(prev.len() - 1, prev.last().push(v[i]))
            }
        }),
{
    assert(v.subrange(lo, i + 1).drop_last() =~= v.subrange(lo, i));
}

/// The ranges of the pieces of `lo..hi` between occurrences of `sep`.
pub(crate) fn split_ranges(v: &Vec<char>, lo: usize, hi: usize, sep: char) -> (r: Vec<(usize, usize)>)
    requires
        lo <= hi <= v.len(),
    ensures
        ranges_within(r@, lo as int, hi as int),
        range_texts(v@, r@) == split_pieces(v@.subrange(lo as int, hi as int), is_char(sep)),
{
    let mut r: Vec<(usize, usize)> = Vec::new();
    let mut start = lo;
    let mut i = lo;
    assert(v@.subrange(lo as int, lo as int) =~= Seq::<char>::empty());
    assert(range_texts(v@, r@) =~= Seq::<Seq<char>>::empty());
    assert(range_texts(v@, r@).push(v@.subrange(start as int, i as int)) =~= seq![Seq::empty()]);
    while i < hi
        invariant
            lo <= start <= i <= hi <= v.len(),
            ranges_within(r@, lo as int, hi as int),
            range_texts(v@, r@).push(v@.subrange(start as int, i as int)) == split_pieces(
                v@.subrange(lo as int, i as int),
                is_char(sep),
            ),
        decreases hi - i,
    {
        proof {
            lemma_split_step(v@, lo as int, i as int, is_char(sep));
        }
        if v[i] == sep {
            let ghost old_r = r@;
            r.push((start, i));
            assert(range_texts(v@, r@) =~= range_texts(v@, old_r).push(
                v@.subrange(start as int, i as int),
            ));
            assert(v@.subrange(i + 1, i + 1) =~= Seq::<char>::empty());
            start = i + 1;
        } else {
            assert(v@.subrange(start as int, i + 1) =~= v@.subrange(start as int, i as int).push(
                v@[i as int],
            ));
            assert(range_texts(v@, r@).push(v@.subrange(start as int, i + 1)) =~= range_texts(
                v@,
                r@,
            ).push(v@.subrange(start as int, i as int)).update(
                range_texts(v@, r@).len() as int,
                v@.subrange(start as int, i as int).push(v@[i as int]),
            ));
        }
        i += 1;
    }
    let ghost old_r = r@;
    r.push((start, hi));
    assert(range_texts(v@, r@) =~= range_texts(v@, old_r).push(
        v@.subrange(start as int, hi as int),
    ));
    r
}


/// Filtering a sequence extended by one element.
pub proof fn lemma_filter_push<A>(q: Seq<A>, x: A, f: spec_fn(A) -> bool)
    ensures
        q.push(x).filter(f) == (if f(x) {
            q.filter(f).push(x)
        } else {
            q.filter(f)
        }),
{
    reveal(Seq::filter);
    assert(q.push(x).drop_last() =~= q);
}

/// The ranges of the words (`str::split_whitespace`) of `lo..hi`.
pub(crate) fn word_ranges(v: &Vec<char>, lo: usize, hi: usize) -> (r: Vec<(usize, usize)>)
    requires
        lo <= hi <= v.len(),
    ensures
        ranges_within(r@, lo as int, hi as int),
        range_texts(v@, r@) == words(v@.subrange(lo as int, hi as int)),
{
    let mut r: Vec<(usize, usize)> = Vec::new();
    let mut start = lo;
    let mut i = lo;
    let ghost mut q: Seq<Seq<char>> = Seq::empty();
    assert(v@.subrange(lo as int, lo as int) =~= Seq::<char>::empty());
    assert(q.push(v@.subrange(start as int, i as int)) =~= seq![Seq::empty()]);
    assert(range_texts(v@, r@) =~= Seq::<Seq<char>>::empty());
    proof {
        reveal(Seq::filter);
    }
    while i < hi
        invariant
            lo <= start <= i <= hi <= v.len(),
            ranges_within(r@, lo as int, hi as int),
            q.push(v@.subrange(start as int, i as int)) == split_pieces(
                v@.subrange(lo as int, i as int),
                whitespace(),
            ),
            range_texts(v@, r@) == q.filter(nonempty()),
        decreases hi - i,
    {
        proof {
            lemma_split_step(v@, lo as int, i as int, whitespace());
        }
        if is_ws_char(v[i]) {
            let ghost cur = v@.subrange(start as int, i as int);
            proof {
                lemma_filter_push(q, cur, nonempty());
            }
            if i > start {
                let ghost old_r = r@;
                r.push((start, i));
                assert(range_texts(v@, r@) =~= range_texts(v@, old_r).push(cur));
            }
            proof {
                q = q.push(cur);
            }
            assert(v@.subrange(i + 1, i + 1) =~= Seq::<char>::empty());
            start = i + 1;
        } else {
            assert(v@.subrange(start as int, i + 1) =~= v@.subrange(start as int, i as int).push(
                v@[i as int],
            ));
            assert(q.push(v@.subrange(start as int, i + 1)) =~= q.push(
                v@.subrange(start as int, i as int),
            ).update(q.len() as int, v@.subrange(start as int, i as int).push(v@[i as int])));
        }
        i += 1;
    }
    let ghost cur = v@.subrange(start as int, hi as int);
    proof {
        lemma_filter_push(q, cur, nonempty());
    }
    if hi > start {
        let ghost old_r = r@;
        r.push((start, hi));
        assert(range_texts(v@, r@) =~= range_texts(v@, old_r).push(cur));
    }
    r
}

/// The ranges of the lines (`str::lines`) of `lo..hi`.
pub(crate) fn line_ranges(v: &Vec<char>, lo: usize, hi: usize) -> (r: Vec<(usize, usize)>)
    requires
        lo <= hi <= v.len(),
    ensures
        ranges_within(r@, lo as int, hi as int),
        range_texts(v@, r@) == lines(v@.subrange(lo as int, hi as int)),
{
    let parts = split_ranges(v, lo, hi, '\n');
    let ghost sub = v@.subrange(lo as int, hi as int);
    let ghost pieces = split_pieces(sub, is_char('\n'));
    proof {
        lemma_split_nonempty(sub, is_char('\n'));
    }
    assert(range_texts(v@, parts@).len() == parts@.len());
    let n = parts.len() - 1;
    let mut r: Vec<(usize, usize)> = Vec::new();
    let mut k: usize = 0;
    assert(range_texts(v@, r@) =~= pieces.take(0).map_values(|p: Seq<char>| strip_cr(p)));
    while k < n
        invariant
            n + 1 == parts@.len(),
            k <= n,
            lo <= hi <= v@.len(),
            ranges_within(parts@, lo as int, hi as int),
            range_texts(v@, parts@) == pieces,
            ranges_within(r@, lo as int, hi as int),
            range_texts(v@, r@) == pieces.take(k as int).map_values(|p: Seq<char>| strip_cr(p)),
        decreases n - k,
    {
        let (a, b) = parts[k];
        assert(parts@[k as int] == (a, b));
        assert(lo <= a <= b <= hi);
        assert(pieces[k as int] == v@.subrange(a as int, b as int));
        let e = if b > a && v[b - 1] == '\r' {
            b - 1
        } else {
            b
        };
        assert(v@.subrange(a as int, e as int) == strip_cr(v@.subrange(a as int, b as int))) by {
            if b > a && v@[b - 1] == '\r' {
                assert(v@.subrange(a as int, b as int).drop_last() =~= v@.subrange(
                    a as int,
                    e as int,
                ));
            }
        }
        let ghost old_r = r@;
        r.push((a, e));
        assert(range_texts(v@, r@) =~= range_texts(v@, old_r).push(
            v@.subrange(a as int, e as int),
        ));
        assert(pieces.take(k + 1) =~= pieces.take(k as int).push(pieces[k as int]));
        assert(pieces.take(k + 1).map_values(|p: Seq<char>| strip_cr(p)) =~= pieces.take(
            k as int,
        ).map_values(|p: Seq<char>| strip_cr(p)).push(strip_cr(pieces[k as int])));
        k += 1;
    }
    assert(pieces.take(n as int) =~= pieces.drop_last());
    let (a, b) = parts[n];
    assert(parts@[n as int] == (a, b));
    assert(pieces.last() == v@.subrange(a as int, b as int));
    if b > a {
        let ghost old_r = r@;
        r.push((a, b));
        assert(range_texts(v@, r@) =~= range_texts(v@, old_r).push(
            v@.subrange(a as int, b as int),
        ));
    }
    r
}


// ---------------------------------------------------------------------------
// Searching
// ---------------------------------------------------------------------------

/// The first index `>= i` at which `pat` occurs in `s`.
pub open spec fn find_from(s: Seq<char>, pat: Seq<char>, i: int) -> Option<int>
    decreases s.len() + 1 - i,
{
    if i < 0 || i + pat.len() > s.len() {
        None
    } else if s.subrange(i, i + pat.len()) == pat {
        Some(i)
    } else {
        find_from(s, pat, i + 1)
    }
}

/// What `find_from` returns is an occurrence, at or after the start, with
/// none between the start and it.
pub proof fn lemma_find_from(s: Seq<char>, pat: Seq<char>, i: int)
    requires
        0 <= i,
    ensures
        match find_from(s, pat, i) {
            Some(j) => i <= j && occurs_at(s, pat, j) && forall|k: int|
                i <= k < j ==> !occurs_at(s, pat, k),
            None => forall|k: int| i <= k ==> !occurs_at(s, pat, k),
        },
    decreases s.len() + 1 - i,
{
    if i + pat.len() <= s.len() && s.subrange(i, i + pat.len()) != pat {
        lemma_find_from(s, pat, i + 1);
    }
}

/// The first occurrence of `pat` in `lo..hi` at or after `from`, as an index of `v`.
pub fn find_in(v: &Vec<char>, lo: usize, hi: usize, from: usize, pat: &Vec<char>) -> (r: Option<
    usize,
>)
    requires
        lo <= from <= hi <= v.len(),
    ensures
        match r {
            Some(j) => from <= j <= hi && find_from(
                v@.subrange(lo as int, hi as int),
                pat@,
                from - lo,
            ) == Some(j - lo),
            None => find_from(v@.subrange(lo as int, hi as int), pat@, from - lo) is None,
        },
{
    let ghost s = v@.subrange(lo as int, hi as int);
    let mut i = from;
    while i <= hi && pat.len() <= hi - i
        invariant
            lo <= from <= i,
            hi <= v.len(),
            s == v@.subrange(lo as int, hi as int),
            find_from(s, pat@, from - lo) == find_from(s, pat@, i - lo),
        decreases hi + 1 - i,
    {
        let m = matches_at(v, i, pat);
        assert(s.subrange(i - lo, i - lo + pat.len()) =~= v@.subrange(i as int, i + pat.len()));
        if m {
            return Some(i);
        }
        if i == hi {
            assert(v@.subrange(i as int, i as int) =~= pat@);
        }
        i += 1;
    }
    None
}

/// The index of the first character of `s` at or after `i` that satisfies
/// `stop`, or the length of `s` when there is none.
pub open spec fn first_stop(s: Seq<char>, stop: spec_fn(char) -> bool, i: int) -> int
    decreases s.len() - i,
{
    if i < 0 || i >= s.len() {
        s.len() as int
    } else if stop(s[i]) {
        i
    } else {
        first_stop(s, stop, i + 1)
    }
}

/// The part of `s` before its first character that satisfies `stop`: the
/// first piece that `str::split` yields for such a separator.
pub open spec fn prefix_before(s: Seq<char>, stop: spec_fn(char) -> bool) -> Seq<char> {
    s.take(first_stop(s, stop, 0))
}

/// `first_stop` lies between the start and the end.
pub proof fn lemma_first_stop_bounds(s: Seq<char>, stop: spec_fn(char) -> bool, i: int)
    requires
        0 <= i <= s.len(),
    ensures
        i <= first_stop(s, stop, i) <= s.len(),
    decreases s.len() - i,
{
    if i < s.len() && !stop(s[i]) {
        lemma_first_stop_bounds(s, stop, i + 1);
    }
}

/// The first index in `lo..hi` at or after `from` whose character is `c`, or `hi`.
pub fn first_of(v: &Vec<char>, lo: usize, hi: usize, from: usize, c: char) -> (r: usize)
    requires
        lo <= from <= hi <= v.len(),
    ensures
        from <= r <= hi,
        r - lo == first_stop(v@.subrange(lo as int, hi as int), is_char(c), from - lo),
{
    let ghost s = v@.subrange(lo as int, hi as int);
    let mut i = from;
    while i < hi && v[i] != c
        invariant
            lo <= from <= i <= hi <= v.len(),
            s == v@.subrange(lo as int, hi as int),
            first_stop(s, is_char(c), from - lo) == first_stop(s, is_char(c), i - lo),
        decreases hi - i,
    {
        i += 1;
    }
    i
}

/// The index of the first element of `s` at or after `i` that satisfies `p`.
pub open spec fn first_where<A>(s: Seq<A>, p: spec_fn(A) -> bool, i: int) -> Option<int>
    decreases s.len() - i,
{
    if i < 0 || i >= s.len() {
        None
    } else if p(s[i]) {
        Some(i)
    } else {
        first_where(s, p, i + 1)
    }
}

/// What `first_where` finds: an element at or after `i` that satisfies `p`,
/// with none before it; or, when it finds none, that none does.
pub proof fn lemma_first_where<A>(s: Seq<A>, p: spec_fn(A) -> bool, i: int)
    requires
        0 <= i,
    ensures
        match first_where(s, p, i) {
            Some(k) => i <= k < s.len() && p(s[k]) && forall|j: int| i <= j < k ==> !p(#[trigger] s[j]),
            None => forall|j: int| i <= j < s.len() ==> !p(#[trigger] s[j]),
        },
    decreases s.len() - i,
{
    if i < s.len() && !p(s[i]) {
        lemma_first_where(s, p, i + 1);
    }
}

/// The index of the last element of `s` that satisfies `p`.
pub open spec fn last_where<A>(s: Seq<A>, p: spec_fn(A) -> bool) -> Option<int>
    decreases s.len(),
{
    if s.len() == 0 {
        None
    } else if p(s.last()) {
        Some(s.len() - 1)
    } else {
        last_where(s.drop_last(), p)
    }
}

/// The index of the last occurrence of `c` in `s` (`str::rfind`).
pub open spec fn last_index(s: Seq<char>, c: char) -> Option<int>
    decreases s.len(),
{
    if s.len() == 0 {
        None
    } else if s.last() == c {
        Some(s.len() - 1)
    } else {
        last_index(s.drop_last(), c)
    }
}

/// What `last_index` finds is an occurrence with none after it.
pub proof fn lemma_last_index(s: Seq<char>, c: char)
    ensures
        match last_index(s, c) {
            Some(j) => 0 <= j < s.len() && s[j] == c && forall|k: int| j < k < s.len() ==> s[k] != c,
            None => forall|k: int| 0 <= k < s.len() ==> s[k] != c,
        },
    decreases s.len(),
{
    if s.len() > 0 && s.last() != c {
        lemma_last_index(s.drop_last(), c);
        assert(forall|k: int| 0 <= k < s.len() - 1 ==> s.drop_last()[k] == s[k]);
    }
}

/// The last index in `lo..hi` whose character is `c`.
pub fn last_of(v: &Vec<char>, lo: usize, hi: usize, c: char) -> (r: Option<usize>)
    requires
        lo <= hi <= v.len(),
    ensures
        match r {
            Some(j) => lo <= j < hi && last_index(v@.subrange(lo as int, hi as int), c) == Some(
                j - lo,
            ),
            None => last_index(v@.subrange(lo as int, hi as int), c) is None,
        },
{
    let mut i = hi;
    while i > lo
        invariant
            lo <= i <= hi <= v.len(),
            last_index(v@.subrange(lo as int, hi as int), c) == last_index(
                v@.subrange(lo as int, i as int),
                c,
            ),
        decreases i,
    {
        assert(v@.subrange(lo as int, i as int).drop_last() =~= v@.subrange(lo as int, i - 1));
        if v[i - 1] == c {
            return Some(i - 1);
        }
        i -= 1;
    }
    None
}


// ---------------------------------------------------------------------------
// Decimal numbers
// ---------------------------------------------------------------------------

/// Why a text is not an unsigned decimal number, as `str::parse` reports it.
#[derive(Debug, Clone, Copy, PartialEq, Eq, Structural)]
pub enum NumberError {
    /// The text is empty.
    Empty,
    /// A character is not a decimal digit.
    InvalidDigit,
    /// The value does not fit in the target type.
    PosOverflow,
}

impl NumberError {
    /// The text that the standard library's error shows for this kind.
    pub fn message(&self) -> (r: &'static str)
        ensures
            r@ == number_error_text(*self),
    {
        match self {
            NumberError::Empty => "cannot parse integer from empty string",
            NumberError::InvalidDigit => "invalid digit found in string",
            NumberError::PosOverflow => "number too large to fit in target type",
        }
    }
}

/// The text of each kind of number error.
pub open spec fn number_error_text(e: NumberError) -> Seq<char> {
    match e {
        NumberError::Empty => "cannot parse integer from empty string"@,
        NumberError::InvalidDigit => "invalid digit found in string"@,
        NumberError::PosOverflow => "number too large to fit in target type"@,
    }
}

/// An ASCII decimal digit.
pub open spec fn is_digit(c: char) -> bool {
    '0' <= c && c <= '9'
}

/// The value of an ASCII decimal digit.
pub open spec fn digit_value(c: char) -> nat {
    (c as int - '0' as int) as nat
}

/// Reading `d` digit by digit from the left, stopping at the first character
/// that is no digit or at the first step that exceeds `max`.
pub open spec fn decimal_digits(d: Seq<char>, max: nat) -> Result<nat, NumberError>
    decreases d.len(),
{
    if d.len() == 0 {
        Ok(0)
    } else {
        match decimal_digits(d.drop_last(), max) {
            Err(e) => Err(e),
            Ok(v) => if !is_digit(d.last()) {
                Err(NumberError::InvalidDigit)
            } else if v * 10 + digit_value(d.last()) > max {
                Err(NumberError::PosOverflow)
            } else {
                Ok(v * 10 + digit_value(d.last()))
            },
        }
    }
}

/// The digits of an unsigned number: one leading `+` is dropped when more follows.
pub open spec fn unsigned_digits(s: Seq<char>) -> Seq<char> {
    if s.len() > 1 && s[0] == '+' {
        s.drop_first()
    } else {
        s
    }
}

/// `str::parse` for an unsigned integer type whose largest value is `max`.
pub open spec fn parse_unsigned(s: Seq<char>, max: nat) -> Result<nat, NumberError> {
    if s.len() == 0 {
        Err(NumberError::Empty)
    } else {
        decimal_digits(unsigned_digits(s), max)
    }
}

/// A parse result seen with a mathematical integer.
pub open spec fn widen(r: Result<u64, NumberError>) -> Result<nat, NumberError> {
    match r {
        Ok(x) => Ok(x as nat),
        Err(e) => Err(e),
    }
}

/// Once a prefix of the digits fails, the whole fails the same way.
pub proof fn lemma_prefix_error(d: Seq<char>, max: nat, k: int, e: NumberError)
    requires
        0 <= k <= d.len(),
        decimal_digits(d.take(k), max) == Err::<nat, NumberError>(e),
    ensures
        decimal_digits(d, max) == Err::<nat, NumberError>(e),
    decreases d.len() - k,
{
    if k < d.len() {
        assert(d.take(k + 1).drop_last() =~= d.take(k));
        lemma_prefix_error(d, max, k + 1, e);
    } else {
        assert(d.take(k) =~= d);
    }
}

/// Reads the range `lo..hi` of `v` as decimal digits, no value larger than `max`.
pub fn decimal_digits_range(v: &Vec<char>, lo: usize, hi: usize, max: u64) -> (r: Result<
    u64,
    NumberError,
>)
    requires
        lo <= hi <= v.len(),
    ensures
        widen(r) == decimal_digits(v@.subrange(lo as int, hi as int), max as nat),
        r matches Ok(x) ==> x <= max,
{
    let ghost d = v@.subrange(lo as int, hi as int);
    let mut acc: u64 = 0;
    let mut i = lo;
    assert(d.take(0) =~= Seq::<char>::empty());
    while i < hi
        invariant
            lo <= i <= hi <= v.len(),
            d == v@.subrange(lo as int, hi as int),
            acc <= max,
            decimal_digits(d.take(i - lo), max as nat) == Ok::<nat, NumberError>(acc as nat),
        decreases hi - i,
    {
        let c = v[i];
        assert(d.take(i - lo + 1).drop_last() =~= d.take(i - lo));
        assert(d.take(i - lo + 1).last() == c);
        if !('0' <= c && c <= '9') {
            proof {
                lemma_prefix_error(d, max as nat, i - lo + 1, NumberError::InvalidDigit);
            }
            return Err(NumberError::InvalidDigit);
        }
        let digit = (c as u32 - '0' as u32) as u64;
        assert(digit as nat == digit_value(c));
        if (acc as u128) * 10 + (digit as u128) > max as u128 {
            proof {
                lemma_prefix_error(d, max as nat, i - lo + 1, NumberError::PosOverflow);
            }
            return Err(NumberError::PosOverflow);
        }
        acc = acc * 10 + digit;
        i += 1;
    }
    assert(d.take(hi - lo) =~= d);
    Ok(acc)
}

/// Parses the range `lo..hi` of `v` as an unsigned number no larger than `max`.
pub fn parse_unsigned_range(v: &Vec<char>, lo: usize, hi: usize, max: u64) -> (r: Result<
    u64,
    NumberError,
>)
    requires
        lo <= hi <= v.len(),
    ensures
        widen(r) == parse_unsigned(v@.subrange(lo as int, hi as int), max as nat),
        r matches Ok(x) ==> x <= max,
{
    let ghost s = v@.subrange(lo as int, hi as int);
    if lo == hi {
        return Err(NumberError::Empty);
    }
    let start = if hi - lo > 1 && v[lo] == '+' {
        lo + 1
    } else {
        lo
    };
    assert(unsigned_digits(s) =~= v@.subrange(start as int, hi as int));
    decimal_digits_range(v, start, hi, max)
}

/// `str::parse::<i64>`, its error dropped: an optional sign, then digits.
pub open spec fn parse_i64(s: Seq<char>) -> Option<int> {
    if s.len() > 1 && s[0] == '-' {
        match decimal_digits(s.drop_first(), 0x8000_0000_0000_0000) {
            Ok(v) => Some(-v),
            Err(_) => None,
        }
    } else {
        match parse_unsigned(s, 0x7fff_ffff_ffff_ffff) {
            Ok(v) => Some(v as int),
            Err(_) => None,
        }
    }
}

/// `str::parse::<i64>` on the range `lo..hi` of `v`, its error dropped.
pub fn parse_i64_range(v: &Vec<char>, lo: usize, hi: usize) -> (r: Option<i64>)
    requires
        lo <= hi <= v.len(),
    ensures
        match r {
            Some(x) => parse_i64(v@.subrange(lo as int, hi as int)) == Some(x as int),
            None => parse_i64(v@.subrange(lo as int, hi as int)) is None,
        },
{
    let ghost s = v@.subrange(lo as int, hi as int);
    if hi - lo > 1 && v[lo] == '-' {
        assert(s.drop_first() =~= v@.subrange(lo + 1, hi as int));
        match decimal_digits_range(v, lo + 1, hi, 0x8000_0000_0000_0000) {
            Ok(m) => if m == 0x8000_0000_0000_0000 {
                Some(i64::MIN)
            } else {
                Some(-(m as i64))
            },
            Err(_) => None,
        }
    } else {
        match parse_unsigned_range(v, lo, hi, 0x7fff_ffff_ffff_ffff) {
            Ok(m) => Some(m as i64),
            Err(_) => None,
        }
    }
}

/// `str::parse::<u16>` on the range `lo..hi` of `v`, its error dropped.
pub fn parse_u16_range(v: &Vec<char>, lo: usize, hi: usize) -> (r: Option<u16>)
    requires
        lo <= hi <= v.len(),
    ensures
        match r {
            Some(x) => parse_unsigned(v@.subrange(lo as int, hi as int), 0xffff) == Ok::<
                nat,
                NumberError,
            >(x as nat),
            None => parse_unsigned(v@.subrange(lo as int, hi as int), 0xffff) is Err,
        },
{
    match parse_unsigned_range(v, lo, hi, 0xffff) {
        Ok(x) => Some(x as u16),
        Err(_) => None,
    }
}

/// `str::parse::<u32>` on the range `lo..hi` of `v`, its error dropped.
pub fn parse_u32_range(v: &Vec<char>, lo: usize, hi: usize) -> (r: Option<u32>)
    requires
        lo <= hi <= v.len(),
    ensures
        match r {
            Some(x) => parse_unsigned(v@.subrange(lo as int, hi as int), 0xffff_ffff) == Ok::<
                nat,
                NumberError,
            >(x as nat),
            None => parse_unsigned(v@.subrange(lo as int, hi as int), 0xffff_ffff) is Err,
        },
{
    match parse_unsigned_range(v, lo, hi, 0xffff_ffff) {
        Ok(x) => Some(x as u32),
        Err(_) => None,
    }
}

/// The character of a decimal digit.
pub open spec fn digit_char(d: nat) -> char {
    (d + 48) as char
}

/// The decimal text of `n`, as `Display` writes an unsigned integer.
pub open spec fn decimal(n: nat) -> Seq<char>
    decreases n,
{
    if n < 10 {
        seq![digit_char(n)]
    } else {
        decimal(n / 10).push(digit_char(n % 10))
    }
}

/// The text of one decimal digit.
fn digit_text(d: u128) -> (r: &'static str)
    requires
        d < 10,
    ensures
        r@ == seq![digit_char(d as nat)],
{
    proof {
        reveal_strlit("0");
        reveal_strlit("1");
        reveal_strlit("2");
        reveal_strlit("3");
        reveal_strlit("4");
        reveal_strlit("5");
        reveal_strlit("6");
        reveal_strlit("7");
        reveal_strlit("8");
        reveal_strlit("9");
    }
    let r = if d == 0 {
        "0"
    } else if d == 1 {
        "1"
    } else if d == 2 {
        "2"
    } else if d == 3 {
        "3"
    } else if d == 4 {
        "4"
    } else if d == 5 {
        "5"
    } else if d == 6 {
        "6"
    } else if d == 7 {
        "7"
    } else if d == 8 {
        "8"
    } else {
        "9"
    };
    assert(r@ =~= seq![digit_char(d as nat)]);
    r
}

/// The decimal text of `n`.
pub fn decimal_text(n: u128) -> (r: String)
    ensures
        r@ == decimal(n as nat),
    decreases n,
{
    if n < 10 {
        owned(digit_text(n))
    } else {
        let mut r = decimal_text(n / 10);
        r.append(digit_text(n % 10));
        r
    }
}

// ---------------------------------------------------------------------------
// ASCII case and ordering
// ---------------------------------------------------------------------------

/// `char::to_ascii_lowercase`.
pub open spec fn ascii_lower(c: char) -> char {
    if 'A' <= c && c <= 'Z' {
        ((c as int) + 32) as char
    } else {
        c
    }
}

/// `str::to_ascii_lowercase`, character by character.
pub open spec fn lowercase(s: Seq<char>) -> Seq<char> {
    s.map_values(|c: char| ascii_lower(c))
}

/// Executable form of `ascii_lower`.
pub fn ascii_lower_char(c: char) -> (r: char)
    ensures
        r == ascii_lower(c),
{
    if 'A' <= c && c <= 'Z' {
        ((c as u32 as u8) + 32) as char
    } else {
        c
    }
}

/// Whether the range `lo..hi` of `v`, lowercased, equals the text `lit`.
pub fn range_lower_is(v: &Vec<char>, lo: usize, hi: usize, lit: &str) -> (r: bool)
    requires
        lo <= hi <= v.len(),
    ensures
        r == (lowercase(v@.subrange(lo as int, hi as int)) == lit@),
{
    let p = chars_of(lit);
    let ghost s = v@.subrange(lo as int, hi as int);
    if hi - lo != p.len() {
        assert(lowercase(s).len() != p@.len());
        return false;
    }
    let mut k: usize = 0;
    while k < p.len()
        invariant
            lo + p.len() == hi <= v.len(),
            s == v@.subrange(lo as int, hi as int),
            p@ == lit@,
            k <= p.len(),
            forall|j: int| 0 <= j < k ==> ascii_lower(v@[lo + j]) == p@[j],
        decreases p.len() - k,
    {
        if ascii_lower_char(v[lo + k]) != p[k] {
            assert(lowercase(s)[k as int] != p@[k as int]);
            return false;
        }
        k += 1;
    }
    assert(lowercase(s) =~= p@);
    true
}

/// Lexicographic order on characters from index `i` on, as `str` orders text
/// (UTF-8 byte order is code point order).
pub open spec fn lex_le_from(a: Seq<char>, b: Seq<char>, i: int) -> bool
    decreases a.len() - i,
{
    if i < 0 || i >= a.len() {
        true
    } else if i >= b.len() {
        false
    } else if a[i] != b[i] {
        a[i] < b[i]
    } else {
        lex_le_from(a, b, i + 1)
    }
}

/// Lexicographic order on character sequences.
pub open spec fn lex_le(a: Seq<char>, b: Seq<char>) -> bool {
    lex_le_from(a, b, 0)
}

/// Lexicographic order is total.
pub proof fn lemma_lex_total(a: Seq<char>, b: Seq<char>, i: int)
    requires
        0 <= i,
    ensures
        lex_le_from(a, b, i) || lex_le_from(b, a, i),
    decreases a.len() - i,
{
    if i < a.len() && i < b.len() && a[i] == b[i] {
        lemma_lex_total(a, b, i + 1);
    }
}

/// Lexicographic order is transitive.
pub proof fn lemma_lex_trans(a: Seq<char>, b: Seq<char>, c: Seq<char>, i: int)
    requires
        0 <= i,
        lex_le_from(a, b, i),
        lex_le_from(b, c, i),
    ensures
        lex_le_from(a, c, i),
    decreases a.len() - i,
{
    if i < a.len() && i < b.len() && i < c.len() && a[i] == b[i] && b[i] == c[i] {
        lemma_lex_trans(a, b, c, i + 1);
    }
}

/// Text ordered both ways is the same text.
pub proof fn lemma_lex_antisym(a: Seq<char>, b: Seq<char>)
    requires
        lex_le(a, b),
        lex_le(b, a),
    ensures
        a == b,
{
    lemma_lex_antisym_from(a, b, 0);
    assert(a =~= b);
}

proof fn lemma_lex_antisym_from(a: Seq<char>, b: Seq<char>, i: int)
    requires
        0 <= i <= a.len(),
        i <= b.len(),
        lex_le_from(a, b, i),
        lex_le_from(b, a, i),
    ensures
        a.len() == b.len(),
        forall|k: int| i <= k < a.len() ==> a[k] == b[k],
    decreases a.len() - i,
{
    if i < a.len() && i < b.len() {
        lemma_lex_antisym_from(a, b, i + 1);
    }
}

/// Whether `a` comes no later than `b` in lexicographic order.
pub fn chars_le(a: &Vec<char>, b: &Vec<char>) -> (r: bool)
    ensures
        r == lex_le(a@, b@),
{
    let mut i: usize = 0;
    while i < a.len() && i < b.len() && a[i] == b[i]
        invariant
            i <= a.len(),
            lex_le(a@, b@) == lex_le_from(a@, b@, i as int),
        decreases a.len() - i,
    {
        i += 1;
    }
    if i >= a.len() {
        true
    } else if i >= b.len() {
        false
    } else {
        a[i] < b[i]
    }
}


// ---------------------------------------------------------------------------
// Bytes
// ---------------------------------------------------------------------------

/// The text that `String::from_utf8_lossy` decodes from `bytes`.
pub uninterp spec fn utf8_lossy(bytes: Seq<u8>) -> Seq<char>;

/// `String::from_utf8_lossy`, owned. Claimed of the standard function: its
/// result depends on the bytes alone, and bytes that are valid UTF-8 decode
/// to their characters. What it makes of invalid sequences (U+FFFD in their
/// place) is not stated.
#[verifier::external_body]
pub(crate) fn lossy_text(bytes: &[u8]) -> (r: String)
    ensures
        r@ == utf8_lossy(bytes@),
        valid_utf8(bytes@) ==> r@ == decode_utf8(bytes@),
{
    String::from_utf8_lossy(bytes).into_owned()
}

} // verus!
