//! Small verified helpers for comparing and classifying text.

use vstd::prelude::*;
use vstd::string::StrSliceExecFns;

verus! {

/// True when `p` is a prefix of `s`.
pub open spec fn spec_starts_with(s: Seq<char>, p: Seq<char>) -> bool {
    p.len() <= s.len() && s.subrange(0, p.len() as int) == p
}

/// Compares two strings character by character.
pub fn str_eq(a: &str, b: &str) -> (r: bool)
    ensures
        r == (a@ == b@),
{
    let an = a.unicode_len();
    let bn = b.unicode_len();
    if an != bn {
        return false;
    }
    let mut i: usize = 0;
    while i < an
        invariant
            0 <= i <= an,
            an == a@.len(),
            an == b@.len(),
            forall|j: int| 0 <= j < i ==> a@[j] == b@[j],
        decreases an - i,
    {
        if a.get_char(i) != b.get_char(i) {
            return false;
        }
        i = i + 1;
    }
    proof {
        assert(a@ =~= b@);
    }
    true
}

/// Tests whether `prefix` is a prefix of `a`, character by character.
pub fn str_starts_with(a: &str, prefix: &str) -> (r: bool)
    ensures
        r == spec_starts_with(a@, prefix@),
{
    let an = a.unicode_len();
    let pn = prefix.unicode_len();
    if pn > an {
        return false;
    }
    let mut i: usize = 0;
    while i < pn
        invariant
            0 <= i <= pn,
            pn <= an,
            an == a@.len(),
            pn == prefix@.len(),
            forall|j: int| 0 <= j < i ==> a@[j] == prefix@[j],
        decreases pn - i,
    {
        if a.get_char(i) != prefix.get_char(i) {
            proof {
                assert(a@[i as int] != prefix@[i as int]);
                assert(a@.subrange(0, pn as int)[i as int] == a@[i as int]);
            }
            return false;
        }
        i = i + 1;
    }
    proof {
        assert(a@.subrange(0, pn as int) =~= prefix@);
    }
    true
}

/// Tests whether a character is a decimal digit.
pub fn is_digit_char(c: char) -> (r: bool)
    ensures
        r == crate::message::spec_is_digit(c),
{
    '0' <= c && c <= '9'
}

/// Tests whether a character is an ASCII letter or digit.
pub fn is_alnum_char(c: char) -> (r: bool)
    ensures
        r == crate::message::spec_is_alnum(c),
{
    ('a' <= c && c <= 'z') || ('A' <= c && c <= 'Z') || ('0' <= c && c <= '9')
}

/// True of the ASCII letters.
pub open spec fn spec_is_alpha(c: char) -> bool {
    ('a' <= c && c <= 'z') || ('A' <= c && c <= 'Z')
}

/// Tests whether a character is an ASCII letter.
pub fn is_alpha_char(c: char) -> (r: bool)
    ensures
        r == spec_is_alpha(c),
{
    ('a' <= c && c <= 'z') || ('A' <= c && c <= 'Z')
}

/// Every digit string spells a nonnegative number.
pub proof fn lemma_digits_value_nonneg(s: Seq<char>)
    requires
        crate::message::spec_all_digits(s),
    ensures
        crate::message::spec_digits_value(s) >= 0,
    decreases s.len(),
{
    if s.len() > 0 {
        assert(crate::message::spec_all_digits(s.drop_last()));
        lemma_digits_value_nonneg(s.drop_last());
    }
}

/// A digit string spells at least what any of its prefixes spells.
pub proof fn lemma_digits_value_ge_prefix(s: Seq<char>, i: int)
    requires
        crate::message::spec_all_digits(s),
        0 <= i <= s.len(),
    ensures
        crate::message::spec_digits_value(s) >= crate::message::spec_digits_value(s.take(i)),
    decreases s.len() - i,
{
    if i < s.len() {
        assert(crate::message::spec_all_digits(s.take(i + 1)));
        assert(s.take(i + 1).drop_last() =~= s.take(i));
        assert(s.take(i + 1).last() == s[i]);
        lemma_digits_value_nonneg(s.take(i));
        lemma_digits_value_ge_prefix(s, i + 1);
        assert(s.take(s.len() as int) =~= s);
    } else {
        assert(s.take(i) =~= s);
    }
}

/// Parses the characters of `s` in `[start, end)` as an unsigned decimal
/// number.  Fails when the range is empty, holds a non-digit, or spells a
/// number too large for sixty-four bits.
pub fn parse_u64_digits(s: &str, start: usize, end: usize) -> (r: Option<u64>)
    requires
        start <= end <= s@.len(),
    ensures
        ({
            let sub = s@.subrange(start as int, end as int);
            match r {
                Some(v) => sub.len() >= 1 && crate::message::spec_all_digits(sub) && v
                    == crate::message::spec_digits_value(sub),
                None => !(sub.len() >= 1 && crate::message::spec_all_digits(sub)
                    && crate::message::spec_digits_value(sub) <= u64::MAX),
            }
        }),
{
    let ghost sub = s@.subrange(start as int, end as int);
    if start == end {
        return None;
    }
    let mut value: u64 = 0;
    let mut i: usize = start;
    while i < end
        invariant
            start <= i <= end,
            end <= s@.len(),
            sub == s@.subrange(start as int, end as int),
            crate::message::spec_all_digits(sub.take(i - start)),
            value == crate::message::spec_digits_value(sub.take(i - start)),
        decreases end - i,
    {
        let c = s.get_char(i);
        proof {
            assert(sub[i - start] == s@[i as int]);
            assert(sub.take(i - start + 1).drop_last() =~= sub.take(i - start));
            assert(sub.take(i - start + 1).last() == sub[i - start]);
        }
        if c < '0' || c > '9' {
            proof {
                assert(!crate::message::spec_is_digit(sub[i - start]));
            }
            return None;
        }
        let d = (c as u32 - '0' as u32) as u64;
        if value > 1844674407370955161u64 || (value == 1844674407370955161u64 && d > 5) {
            proof {
                let taken = sub.take(i - start + 1);
                assert(crate::message::spec_digits_value(taken) > u64::MAX);
                if crate::message::spec_all_digits(sub) {
                    lemma_digits_value_ge_prefix(sub, i - start + 1);
                }
            }
            return None;
        }
        value = value * 10 + d;
        i = i + 1;
    }
    proof {
        assert(sub.take(end - start) =~= sub);
    }
    Some(value)
}

/// The first position at or after `i` that does not hold an ASCII letter,
/// or the end of `s`.
pub open spec fn spec_alpha_run_end(s: Seq<char>, i: int) -> int
    decreases s.len() - i,
{
    if i < 0 || i >= s.len() {
        i
    } else if spec_is_alpha(s[i]) {
        spec_alpha_run_end(s, i + 1)
    } else {
        i
    }
}

/// What the end of a letter run means: everything before it is a letter,
/// and it stops at the first non-letter.
pub proof fn lemma_alpha_run_end(s: Seq<char>, i: int)
    requires
        0 <= i <= s.len(),
    ensures
        i <= spec_alpha_run_end(s, i) <= s.len(),
        forall|j: int| i <= j < spec_alpha_run_end(s, i) ==> spec_is_alpha(#[trigger] s[j]),
        spec_alpha_run_end(s, i) < s.len() ==> !spec_is_alpha(s[spec_alpha_run_end(s, i)]),
    decreases s.len() - i,
{
    if i < s.len() && spec_is_alpha(s[i]) {
        lemma_alpha_run_end(s, i + 1);
    }
}

/// A run of letters ends exactly at the first position that is not one.
pub proof fn lemma_alpha_run_end_exact(s: Seq<char>, i: int, j: int)
    requires
        0 <= i <= j <= s.len(),
        forall|m: int| i <= m < j ==> spec_is_alpha(#[trigger] s[m]),
        j < s.len() ==> !spec_is_alpha(s[j]),
    ensures
        spec_alpha_run_end(s, i) == j,
    decreases j - i,
{
    if i < j {
        lemma_alpha_run_end_exact(s, i + 1, j);
    }
}

/// Finds the end of the run of ASCII letters starting at `start`.
pub fn alpha_run_end(s: &str, start: usize) -> (k: usize)
    requires
        start <= s@.len(),
    ensures
        k == spec_alpha_run_end(s@, start as int),
{
    let n = s.unicode_len();
    let mut k: usize = start;
    while k < n && is_alpha_char(s.get_char(k))
        invariant
            start <= k <= n,
            n == s@.len(),
            spec_alpha_run_end(s@, start as int) == spec_alpha_run_end(s@, k as int),
        decreases n - k,
    {
        k = k + 1;
    }
    k
}

/// The first position at or after `i` that does not hold an ASCII letter or
/// digit, or the end of `s`.
pub open spec fn spec_alnum_run_end(s: Seq<char>, i: int) -> int
    decreases s.len() - i,
{
    if i < 0 || i >= s.len() {
        i
    } else if crate::message::spec_is_alnum(s[i]) {
        spec_alnum_run_end(s, i + 1)
    } else {
        i
    }
}

/// What the end of a letter-or-digit run means.
pub proof fn lemma_alnum_run_end(s: Seq<char>, i: int)
    requires
        0 <= i <= s.len(),
    ensures
        i <= spec_alnum_run_end(s, i) <= s.len(),
        forall|j: int|
            i <= j < spec_alnum_run_end(s, i) ==> crate::message::spec_is_alnum(#[trigger] s[j]),
        spec_alnum_run_end(s, i) < s.len() ==> !crate::message::spec_is_alnum(
            s[spec_alnum_run_end(s, i)],
        ),
    decreases s.len() - i,
{
    if i < s.len() && crate::message::spec_is_alnum(s[i]) {
        lemma_alnum_run_end(s, i + 1);
    }
}

/// A run of letters and digits ends exactly at the first position that is
/// not one.
pub proof fn lemma_alnum_run_end_exact(s: Seq<char>, i: int, j: int)
    requires
        0 <= i <= j <= s.len(),
        forall|m: int| i <= m < j ==> crate::message::spec_is_alnum(#[trigger] s[m]),
        j < s.len() ==> !crate::message::spec_is_alnum(s[j]),
    ensures
        spec_alnum_run_end(s, i) == j,
    decreases j - i,
{
    if i < j {
        lemma_alnum_run_end_exact(s, i + 1, j);
    }
}

/// Finds the end of the run of ASCII letters and digits starting at
/// `start`.
pub fn alnum_run_end(s: &str, start: usize) -> (k: usize)
    requires
        start <= s@.len(),
    ensures
        k == spec_alnum_run_end(s@, start as int),
{
    let n = s.unicode_len();
    let mut k: usize = start;
    while k < n && is_alnum_char(s.get_char(k))
        invariant
            start <= k <= n,
            n == s@.len(),
            spec_alnum_run_end(s@, start as int) == spec_alnum_run_end(s@, k as int),
        decreases n - k,
    {
        k = k + 1;
    }
    k
}

/// The first position at or after `i` holding a dot, or the end of `s`.
pub open spec fn spec_dot_or_end(s: Seq<char>, i: int) -> int
    decreases s.len() - i,
{
    if i < 0 || i >= s.len() {
        i
    } else if s[i] == '.' {
        i
    } else {
        spec_dot_or_end(s, i + 1)
    }
}

/// What the dot position means: no dot before it, and it stops on a dot if
/// it stops before the end.
pub proof fn lemma_dot_or_end(s: Seq<char>, i: int)
    requires
        0 <= i <= s.len(),
    ensures
        i <= spec_dot_or_end(s, i) <= s.len(),
        forall|j: int| i <= j < spec_dot_or_end(s, i) ==> (#[trigger] s[j]) != '.',
        spec_dot_or_end(s, i) < s.len() ==> s[spec_dot_or_end(s, i)] == '.',
    decreases s.len() - i,
{
    if i < s.len() && s[i] != '.' {
        lemma_dot_or_end(s, i + 1);
    }
}

/// The dot position is exactly the first position holding a dot.
pub proof fn lemma_dot_or_end_exact(s: Seq<char>, i: int, j: int)
    requires
        0 <= i <= j <= s.len(),
        forall|m: int| i <= m < j ==> (#[trigger] s[m]) != '.',
        j < s.len() ==> s[j] == '.',
    ensures
        spec_dot_or_end(s, i) == j,
    decreases j - i,
{
    if i < j {
        lemma_dot_or_end_exact(s, i + 1, j);
    }
}

/// Finds the first dot at or after `start`.
pub fn dot_or_end(s: &str, start: usize) -> (k: usize)
    requires
        start <= s@.len(),
    ensures
        k == spec_dot_or_end(s@, start as int),
{
    let n = s.unicode_len();
    let mut k: usize = start;
    while k < n && s.get_char(k) != '.'
        invariant
            start <= k <= n,
            n == s@.len(),
            spec_dot_or_end(s@, start as int) == spec_dot_or_end(s@, k as int),
        decreases n - k,
    {
        k = k + 1;
    }
    k
}

/// Tests whether every character of `s` in `[start, end)` is a decimal
/// digit.
pub fn all_digits_range(s: &str, start: usize, end: usize) -> (r: bool)
    requires
        start <= end <= s@.len(),
    ensures
        r == crate::message::spec_all_digits(s@.subrange(start as int, end as int)),
{
    let ghost sub = s@.subrange(start as int, end as int);
    let mut i: usize = start;
    while i < end
        invariant
            start <= i <= end,
            end <= s@.len(),
            sub == s@.subrange(start as int, end as int),
            forall|j: int| 0 <= j < i - start ==> crate::message::spec_is_digit(#[trigger] sub[j]),
        decreases end - i,
    {
        if !is_digit_char(s.get_char(i)) {
            proof {
                assert(sub[i - start] == s@[i as int]);
            }
            return false;
        }
        i = i + 1;
    }
    true
}

} // verus!
