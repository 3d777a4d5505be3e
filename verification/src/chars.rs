//! Character-sequence utilities shared by the docstring parser: conversion
//! between `String` and `Vec<char>`, whitespace classification matching the
//! Unicode `White_Space` property, and trimming.

use vstd::prelude::*;

verus! {

/// The deep view of a character vector is its view.
pub broadcast proof fn lemma_vec_char_deep_view(v: Vec<char>)
    ensures
        #[trigger] v.deep_view() == v@,
{
    assert(v.deep_view() =~= v@);
}

/// Relies on `str::chars` together with `Iterator::collect`: the characters of
/// the string, in order.
#[verifier::external_body]
pub fn string_chars(s: &str) -> (r: Vec<char>)
    ensures
        r@ == s@,
{
    s.chars().collect()
}

/// Relies on `String: FromIterator<char>` (`Iterator::collect`): builds the
/// string holding exactly these characters, in order.
#[verifier::external_body]
pub fn char_vec_to_string(v: &Vec<char>) -> (r: String)
    ensures
        r@ == v@,
{
    v.iter().collect()
}

/// The Unicode `White_Space` property, the set of characters that
/// `str::trim` removes.
pub open spec fn is_space_char(c: char) -> bool {
    ||| c == ' '
    ||| ('\u{09}' <= c && c <= '\u{0D}')
    ||| c == '\u{85}'
    ||| c == '\u{A0}'
    ||| c == '\u{1680}'
    ||| ('\u{2000}' <= c && c <= '\u{200A}')
    ||| c == '\u{2028}'
    ||| c == '\u{2029}'
    ||| c == '\u{202F}'
    ||| c == '\u{205F}'
    ||| c == '\u{3000}'
}

pub fn is_space(c: char) -> (r: bool)
    ensures
        r == is_space_char(c),
{
    c == ' ' || ('\u{09}' <= c && c <= '\u{0D}') || c == '\u{85}' || c == '\u{A0}'
        || c == '\u{1680}' || ('\u{2000}' <= c && c <= '\u{200A}') || c == '\u{2028}'
        || c == '\u{2029}' || c == '\u{202F}' || c == '\u{205F}' || c == '\u{3000}'
}

/// The sequence with its leading whitespace removed.
pub open spec fn spec_trim_start(s: Seq<char>) -> Seq<char>
    decreases s.len(),
{
    if s.len() == 0 {
        s
    } else if is_space_char(s[0]) {
        spec_trim_start(s.drop_first())
    } else {
        s
    }
}

/// The sequence with its trailing whitespace removed.
pub open spec fn spec_trim_end(s: Seq<char>) -> Seq<char>
    decreases s.len(),
{
    if s.len() == 0 {
        s
    } else if is_space_char(s.last()) {
        spec_trim_end(s.drop_last())
    } else {
        s
    }
}

/// The sequence with whitespace removed from both ends: what `str::trim`
/// leaves of it.
pub open spec fn spec_trim(s: Seq<char>) -> Seq<char> {
    spec_trim_end(spec_trim_start(s))
}

proof fn lemma_trim_start_range(s: Seq<char>, i: int)
    requires
        0 <= i <= s.len(),
        forall|k: int| 0 <= k < i ==> is_space_char(s[k]),
        i < s.len() ==> !is_space_char(s[i]),
    ensures
        spec_trim_start(s) == s.subrange(i, s.len() as int),
    decreases i,
{
    if i == 0 {
        if s.len() == 0 || !is_space_char(s[0]) {
            assert(spec_trim_start(s) =~= s.subrange(0, s.len() as int));
        }
    } else {
        let t = s.drop_first();
        assert(forall|k: int| 0 <= k < i - 1 ==> is_space_char(#[trigger] t[k]));
        lemma_trim_start_range(t, i - 1);
        assert(t.subrange(i - 1, t.len() as int) =~= s.subrange(i, s.len() as int));
    }
}

proof fn lemma_trim_end_range(s: Seq<char>, j: int)
    requires
        0 <= j <= s.len(),
        forall|k: int| j <= k < s.len() ==> is_space_char(s[k]),
        j > 0 ==> !is_space_char(s[j - 1]),
    ensures
        spec_trim_end(s) == s.subrange(0, j),
    decreases s.len() - j,
{
    if j == s.len() {
        if s.len() == 0 || !is_space_char(s.last()) {
            assert(spec_trim_end(s) =~= s.subrange(0, j));
        }
    } else {
        let t = s.drop_last();
        lemma_trim_end_range(t, j);
        assert(t.subrange(0, j) =~= s.subrange(0, j));
    }
}

/// Removes whitespace from both ends, as `str::trim` does.
pub fn trim_chars(v: &Vec<char>) -> (r: Vec<char>)
    ensures
        r@ == spec_trim(v@),
{
    let n = v.len();
    let mut i: usize = 0;
    while i < n && is_space(v[i])
        invariant
            0 <= i <= n,
            n == v@.len(),
            forall|k: int| 0 <= k < i ==> is_space_char(v@[k]),
        decreases n - i,
    {
        i += 1;
    }
    proof {
        lemma_trim_start_range(v@, i as int);
    }
    let ghost started = v@.subrange(i as int, n as int);
    let mut j: usize = n;
    while j > i && is_space(v[j - 1])
        invariant
            i <= j <= n,
            n == v@.len(),
            forall|k: int| j <= k < n ==> is_space_char(v@[k]),
        decreases j,
    {
        j -= 1;
    }
    proof {
        assert(forall|k: int| j - i <= k < started.len() ==> is_space_char(#[trigger] started[k]));
        lemma_trim_end_range(started, j - i);
    }
    let mut r: Vec<char> = Vec::new();
    let mut k: usize = i;
    while k < j
        invariant
            i <= k <= j <= n,
            n == v@.len(),
            r@ == v@.subrange(i as int, k as int),
        decreases j - k,
    {
        r.push(v[k]);
        proof {
            assert(r@ =~= v@.subrange(i as int, k + 1 as int));
        }
        k += 1;
    }
    proof {
        assert(started.subrange(0, j - i) =~= v@.subrange(i as int, j as int));
    }
    r
}

/// The sequence with every trailing occurrence of `c` removed, as
/// `str::trim_end_matches` leaves it for a single-character pattern.
pub open spec fn spec_trim_end_char(s: Seq<char>, c: char) -> Seq<char>
    decreases s.len(),
{
    if s.len() > 0 && s.last() == c {
        spec_trim_end_char(s.drop_last(), c)
    } else {
        s
    }
}

proof fn lemma_trim_end_char_range(s: Seq<char>, c: char, j: int)
    requires
        0 <= j <= s.len(),
        forall|k: int| j <= k < s.len() ==> s[k] == c,
        j > 0 ==> s[j - 1] != c,
    ensures
        spec_trim_end_char(s, c) == s.subrange(0, j),
    decreases s.len() - j,
{
    if j == s.len() {
        if s.len() == 0 || s.last() != c {
            assert(spec_trim_end_char(s, c) =~= s.subrange(0, j));
        }
    } else {
        let t = s.drop_last();
        lemma_trim_end_char_range(t, c, j);
        assert(t.subrange(0, j) =~= s.subrange(0, j));
    }
}

/// Removes every trailing occurrence of `c`, as `str::trim_end_matches`
/// does for a single-character pattern.
pub fn trim_end_matches_char(v: &Vec<char>, c: char) -> (r: Vec<char>)
    ensures
        r@ == spec_trim_end_char(v@, c),
{
    let n = v.len();
    let mut j: usize = n;
    while j > 0 && v[j - 1] == c
        invariant
            0 <= j <= n,
            n == v@.len(),
            forall|k: int| j <= k < n ==> v@[k] == c,
        decreases j,
    {
        j -= 1;
    }
    proof {
        lemma_trim_end_char_range(v@, c, j as int);
    }
    let mut r: Vec<char> = Vec::new();
    let mut k: usize = 0;
    while k < j
        invariant
            0 <= k <= j <= n,
            n == v@.len(),
            r@ == v@.subrange(0, k as int),
        decreases j - k,
    {
        r.push(v[k]);
        proof {
            assert(r@ =~= v@.subrange(0, k + 1 as int));
        }
        k += 1;
    }
    r
}

/// A line with one trailing carriage return removed, as `str::lines` strips
/// it from a line that a line feed terminated.
pub open spec fn strip_cr(s: Seq<char>) -> Seq<char> {
    if s.len() > 0 && s.last() == '\r' {
        s.drop_last()
    } else {
        s
    }
}

/// The completed lines and the still-open line after scanning `s`: a line is
/// completed at each line feed, with a carriage return directly before the
/// line feed removed.
pub open spec fn lines_acc(s: Seq<char>) -> (Seq<Seq<char>>, Seq<char>)
    decreases s.len(),
{
    if s.len() == 0 {
        (Seq::empty(), Seq::empty())
    } else {
        let (acc, cur) = lines_acc(s.drop_last());
        if s.last() == '\n' {
            (acc.push(strip_cr(cur)), Seq::empty())
        } else {
            (acc, cur.push(s.last()))
        }
    }
}

/// The lines of `s`, exactly as `str::lines` yields them: split at line
/// feeds, each `\r\n` ending removed, and no final empty line when the text
/// ends with a line feed.
pub open spec fn spec_lines(s: Seq<char>) -> Seq<Seq<char>> {
    let (acc, cur) = lines_acc(s);
    if cur.len() > 0 {
        acc.push(cur)
    } else {
        acc
    }
}

/// Splits into lines as `str::lines` does.
pub fn split_lines(v: &Vec<char>) -> (r: Vec<Vec<char>>)
    ensures
        r.deep_view() == spec_lines(v@),
{
    let n = v.len();
    let mut acc: Vec<Vec<char>> = Vec::new();
    let mut cur: Vec<char> = Vec::new();
    let mut i: usize = 0;
    while i < n
        invariant
            0 <= i <= n,
            n == v@.len(),
            (acc.deep_view(), cur@) == lines_acc(v@.subrange(0, i as int)),
        decreases n - i,
    {
        let ghost pre = v@.subrange(0, i as int);
        let ghost post = v@.subrange(0, i + 1 as int);
        proof {
            assert(post.drop_last() =~= pre);
            assert(post.last() == v@[i as int]);
        }
        let c = v[i];
        if c == '\n' {
            if cur.len() > 0 && cur[cur.len() - 1] == '\r' {
                cur.pop();
            }
            proof {
                assert(cur@ == strip_cr(lines_acc(pre).1));
            }
            acc.push(cur);
            cur = Vec::new();
            proof {
                assert(acc.deep_view() =~~= lines_acc(post).0);
            }
        } else {
            cur.push(c);
            proof {
                assert(acc.deep_view() =~~= lines_acc(post).0);
            }
        }
        i += 1;
    }
    proof {
        assert(v@.subrange(0, n as int) =~= v@);
    }
    if cur.len() > 0 {
        acc.push(cur);
        proof {
            assert(acc.deep_view() =~~= spec_lines(v@));
        }
    }
    acc
}

/// Case-insensitive equality for ASCII letters: `a` as the text has it,
/// `b` the lower-case letter of a keyword.
pub open spec fn eq_ci(a: char, b: char) -> bool {
    a == b || ('A' <= a && a <= 'Z' && a as int + 32 == b as int)
}

/// Whether `p` is a prefix of `s` up to ASCII case.
pub open spec fn spec_has_prefix_ci(s: Seq<char>, p: Seq<char>) -> bool {
    p.len() <= s.len() && forall|k: int| 0 <= k < p.len() ==> eq_ci(s[k], p[k])
}

/// Whether `p` is a prefix of `s`.
pub open spec fn spec_has_prefix(s: Seq<char>, p: Seq<char>) -> bool {
    p.len() <= s.len() && forall|k: int| 0 <= k < p.len() ==> s[k] == p[k]
}

/// Whether the line begins with the keyword, ignoring ASCII case, as
/// lower-casing the line and testing `str::starts_with` would.
pub fn starts_with_ci(v: &Vec<char>, p: &str) -> (r: bool)
    ensures
        r == spec_has_prefix_ci(v@, p@),
{
    let m = p.unicode_len();
    if m > v.len() {
        return false;
    }
    let mut k: usize = 0;
    while k < m
        invariant
            0 <= k <= m,
            m == p@.len(),
            m <= v@.len(),
            forall|j: int| 0 <= j < k ==> eq_ci(v@[j], p@[j]),
        decreases m - k,
    {
        let a = v[k];
        let b = p.get_char(k);
        if !(a == b || ('A' <= a && a <= 'Z' && (a as u32) + 32 == (b as u32))) {
            return false;
        }
        k += 1;
    }
    true
}

/// Whether the line begins with the marker text.
pub fn starts_with_chars(v: &Vec<char>, p: &str) -> (r: bool)
    ensures
        r == spec_has_prefix(v@, p@),
{
    let m = p.unicode_len();
    if m > v.len() {
        return false;
    }
    let mut k: usize = 0;
    while k < m
        invariant
            0 <= k <= m,
            m == p@.len(),
            m <= v@.len(),
            forall|j: int| 0 <= j < k ==> v@[j] == p@[j],
        decreases m - k,
    {
        if v[k] != p.get_char(k) {
            return false;
        }
        k += 1;
    }
    true
}

/// The position of the first occurrence of `c` in `s`, if any.
pub open spec fn spec_find(s: Seq<char>, c: char) -> Option<int>
    decreases s.len(),
{
    if s.len() == 0 {
        None
    } else if s[0] == c {
        Some(0int)
    } else {
        match spec_find(s.drop_first(), c) {
            None => None,
            Some(i) => Some(i + 1),
        }
    }
}

proof fn lemma_find_range(s: Seq<char>, c: char, i: int)
    requires
        0 <= i <= s.len(),
        forall|k: int| 0 <= k < i ==> s[k] != c,
        i < s.len() ==> s[i] == c,
    ensures
        spec_find(s, c) == if i < s.len() {
            Some(i)
        } else {
            None::<int>
        },
    decreases i,
{
    if i == 0 {
        if s.len() == 0 {
        } else {
            assert(s[0] == c);
        }
    } else {
        let t = s.drop_first();
        assert(forall|k: int| 0 <= k < i - 1 ==> #[trigger] t[k] != c);
        lemma_find_range(t, c, i - 1);
    }
}

/// What `str::split_once` yields: the text before and after the first
/// occurrence of the separator, or nothing when the separator is absent.
pub open spec fn spec_split_once(s: Seq<char>, c: char) -> Option<(Seq<char>, Seq<char>)> {
    match spec_find(s, c) {
        None => None,
        Some(i) => Some((s.subrange(0, i), s.subrange(i + 1, s.len() as int))),
    }
}

/// Splits at the first occurrence of the separator, as `str::split_once`
/// does.
pub fn split_once_char(v: &Vec<char>, c: char) -> (r: Option<(Vec<char>, Vec<char>)>)
    ensures
        r is Some <==> spec_split_once(v@, c) is Some,
        r is Some ==> (r->0).0@ == (spec_split_once(v@, c)->0).0,
        r is Some ==> (r->0).1@ == (spec_split_once(v@, c)->0).1,
{
    let n = v.len();
    let mut i: usize = 0;
    while i < n && v[i] != c
        invariant
            0 <= i <= n,
            n == v@.len(),
            forall|k: int| 0 <= k < i ==> v@[k] != c,
        decreases n - i,
    {
        i += 1;
    }
    proof {
        lemma_find_range(v@, c, i as int);
    }
    if i == n {
        return None;
    }
    let mut before: Vec<char> = Vec::new();
    let mut k: usize = 0;
    while k < i
        invariant
            0 <= k <= i < n == v@.len(),
            before@ == v@.subrange(0, k as int),
        decreases i - k,
    {
        before.push(v[k]);
        proof {
            assert(before@ =~= v@.subrange(0, k + 1 as int));
        }
        k += 1;
    }
    let mut after: Vec<char> = Vec::new();
    let mut k2: usize = i + 1;
    while k2 < n
        invariant
            i < n == v@.len(),
            i + 1 <= k2 <= n,
            after@ == v@.subrange(i + 1 as int, k2 as int),
        decreases n - k2,
    {
        after.push(v[k2]);
        proof {
            assert(after@ =~= v@.subrange(i + 1 as int, k2 + 1 as int));
        }
        k2 += 1;
    }
    Some((before, after))
}

/// The lines joined with a single space between them, as
/// `[&str]::join(" ")` builds it.
pub open spec fn spec_join_space(ls: Seq<Seq<char>>) -> Seq<char>
    decreases ls.len(),
{
    if ls.len() == 0 {
        Seq::empty()
    } else if ls.len() == 1 {
        ls[0]
    } else {
        spec_join_space(ls.drop_last()) + seq![' '] + ls.last()
    }
}

/// Appends `src` to `dst`.
pub fn extend_chars(dst: &mut Vec<char>, src: &Vec<char>)
    ensures
        final(dst)@ == old(dst)@ + src@,
{
    let m = src.len();
    let mut k: usize = 0;
    while k < m
        invariant
            0 <= k <= m,
            m == src@.len(),
            dst@ == old(dst)@ + src@.subrange(0, k as int),
        decreases m - k,
    {
        dst.push(src[k]);
        proof {
            assert(dst@ =~= old(dst)@ + src@.subrange(0, k + 1 as int));
        }
        k += 1;
    }
    proof {
        assert(src@.subrange(0, m as int) =~= src@);
    }
}

/// Copies a line of characters.
pub fn copy_chars(v: &Vec<char>) -> (r: Vec<char>)
    ensures
        r@ == v@,
{
    let n = v.len();
    let mut r: Vec<char> = Vec::new();
    let mut i: usize = 0;
    while i < n
        invariant
            0 <= i <= n,
            n == v@.len(),
            r@ == v@.subrange(0, i as int),
        decreases n - i,
    {
        r.push(v[i]);
        proof {
            assert(r@ =~= v@.subrange(0, i + 1 as int));
        }
        i += 1;
    }
    proof {
        assert(v@.subrange(0, n as int) =~= v@);
    }
    r
}

/// Appends one element to a vector, tracked through the deep view.
pub fn push_item<T: DeepView>(out: &mut Vec<T>, x: T)
    ensures
        final(out).deep_view() == old(out).deep_view().push(x.deep_view()),
{
    let ghost xv = x.deep_view();
    out.push(x);
    proof {
        assert(out.deep_view() =~~= old(out).deep_view().push(xv));
    }
}

/// Copies the characters from position `k` on.
pub fn skip_chars(v: &Vec<char>, k: usize) -> (r: Vec<char>)
    requires
        k <= v@.len(),
    ensures
        r@ == v@.skip(k as int),
{
    let n = v.len();
    let mut r: Vec<char> = Vec::new();
    let mut i: usize = k;
    while i < n
        invariant
            k <= i <= n,
            n == v@.len(),
            r@ == v@.subrange(k as int, i as int),
        decreases n - i,
    {
        r.push(v[i]);
        proof {
            assert(r@ =~= v@.subrange(k as int, i + 1 as int));
        }
        i += 1;
    }
    proof {
        assert(v@.subrange(k as int, n as int) =~= v@.skip(k as int));
    }
    r
}

/// The character of a single decimal digit.
pub open spec fn spec_digit_char(d: nat) -> char {
    ((48 + d) as u8) as char
}

/// The decimal digits of `n`, most significant first.
pub open spec fn spec_dec_digits(n: nat) -> Seq<char>
    decreases n,
{
    if n < 10 {
        seq![spec_digit_char(n)]
    } else {
        spec_dec_digits(n / 10).push(spec_digit_char(n % 10))
    }
}

pub fn digit_char(d: u64) -> (c: char)
    requires
        d < 10,
    ensures
        c == spec_digit_char(d as nat),
{
    (48 + d as u8) as char
}

/// The decimal digits of `n`, as `n` prints.
pub fn dec_chars(n: u64) -> (r: Vec<char>)
    ensures
        r@ == spec_dec_digits(n as nat),
    decreases n,
{
    if n < 10 {
        let mut v: Vec<char> = Vec::new();
        v.push(digit_char(n));
        proof {
            assert(v@ =~= spec_dec_digits(n as nat));
        }
        v
    } else {
        let mut v = dec_chars(n / 10);
        v.push(digit_char(n % 10));
        v
    }
}

/// Joins the lines with single spaces, as `[&str]::join(" ")` does.
pub fn join_space(ls: &Vec<Vec<char>>) -> (r: Vec<char>)
    ensures
        r@ == spec_join_space(ls.deep_view()),
{
    let n = ls.len();
    let mut r: Vec<char> = Vec::new();
    let mut i: usize = 0;
    while i < n
        invariant
            0 <= i <= n,
            n == ls.deep_view().len(),
            ls.deep_view().len() == ls@.len(),
            r@ == spec_join_space(ls.deep_view().subrange(0, i as int)),
        decreases n - i,
    {
        let ghost pre = ls.deep_view().subrange(0, i as int);
        let ghost post = ls.deep_view().subrange(0, i + 1 as int);
        proof {
            assert(post.drop_last() =~= pre);
            assert(post.last() == ls.deep_view()[i as int]);
            assert(ls.deep_view()[i as int] == ls@[i as int]@);
        }
        if i > 0 {
            r.push(' ');
        }
        extend_chars(&mut r, &ls[i]);
        proof {
            if i == 0 {
                assert(r@ =~= spec_join_space(post));
            } else {
                assert(r@ =~= spec_join_space(post));
            }
        }
        i += 1;
    }
    proof {
        assert(ls.deep_view().subrange(0, n as int) =~= ls.deep_view());
    }
    r
}

} // verus!
