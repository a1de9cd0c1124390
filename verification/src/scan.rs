//! Searching character text: first occurrences, decimal numbers, and the facts that
//! keep a search result stable when text is rewritten after it or inserted in front of
//! a `<`.
use vstd::prelude::*;

verus! {

/// Whether `pat` occurs in `t` at position `i`.
pub open spec fn occurs_at(t: Seq<char>, pat: Seq<char>, i: int) -> bool {
    0 <= i && i + pat.len() <= t.len() && t.subrange(i, i + pat.len()) == pat
}

/// The first position at or after `i` where `pat` occurs in `t`.
pub open spec fn find_from(t: Seq<char>, pat: Seq<char>, i: int) -> Option<int>
    decreases t.len() + 1 - i,
{
    if i < 0 || i + pat.len() > t.len() {
        None
    } else if occurs_at(t, pat, i) {
        Some(i)
    } else {
        find_from(t, pat, i + 1)
    }
}

/// A found position is an occurrence and no earlier position at or after `i` is one;
/// when nothing is found there is no occurrence at or after `i`.
pub proof fn lemma_find_from(t: Seq<char>, pat: Seq<char>, i: int)
    requires
        0 <= i,
    ensures
        find_from(t, pat, i) matches Some(j) ==> i <= j && occurs_at(t, pat, j) && forall|k: int|
            i <= k < j ==> !occurs_at(t, pat, k),
        find_from(t, pat, i) is None ==> forall|k: int| i <= k ==> !occurs_at(t, pat, k),
    decreases t.len() + 1 - i,
{
    if i + pat.len() <= t.len() && !occurs_at(t, pat, i) {
        lemma_find_from(t, pat, i + 1);
    }
}

/// `find_from` gives `j` when `j` is an occurrence and nothing between `i` and `j` is.
pub proof fn lemma_find_from_is(t: Seq<char>, pat: Seq<char>, i: int, j: int)
    requires
        0 <= i <= j,
        occurs_at(t, pat, j),
        forall|k: int| i <= k < j ==> !occurs_at(t, pat, k),
    ensures
        find_from(t, pat, i) == Some(j),
    decreases j - i,
{
    if i < j {
        lemma_find_from_is(t, pat, i + 1, j);
    }
}

/// `find_from` gives `None` when there is no occurrence at or after `i`.
pub proof fn lemma_find_from_none(t: Seq<char>, pat: Seq<char>, i: int)
    requires
        0 <= i,
        forall|k: int| i <= k ==> !occurs_at(t, pat, k),
    ensures
        find_from(t, pat, i) is None,
    decreases t.len() + 1 - i,
{
    if i + pat.len() <= t.len() {
        lemma_find_from_none(t, pat, i + 1);
    }
}

/// A search result depends only on the text up to the end of the found occurrence.
pub proof fn lemma_find_stable(a: Seq<char>, b: Seq<char>, pat: Seq<char>, i: int, j: int)
    requires
        0 <= i,
        find_from(a, pat, i) == Some(j),
        j + pat.len() <= b.len(),
        forall|m: int| i <= m < j + pat.len() ==> a[m] == b[m],
    ensures
        find_from(b, pat, i) == Some(j),
{
    lemma_find_from(a, pat, i);
    assert forall|k: int| i <= k < j implies !occurs_at(b, pat, k) by {
        assert(!occurs_at(a, pat, k));
        if occurs_at(b, pat, k) {
            assert(a.subrange(k, k + pat.len()) =~= b.subrange(k, k + pat.len()));
        }
    }
    assert(occurs_at(b, pat, j)) by {
        assert(occurs_at(a, pat, j));
        assert(b.subrange(j, j + pat.len()) =~= a.subrange(j, j + pat.len()));
    }
    lemma_find_from_is(b, pat, i, j);
}

/// Whether `pat` has `<` only as its first character.
pub open spec fn lt_only_first(pat: Seq<char>) -> bool {
    pat.len() > 0 && pat[0] == '<' && forall|j: int| 0 < j < pat.len() ==> pat[j] != '<'
}

/// If `a` has no occurrence of `pat` (whose only `<` is its first character) and `b`
/// starts with `<`, then no occurrence in `a + b` starts inside `a`.
pub proof fn lemma_no_occurrence_before_lt(a: Seq<char>, b: Seq<char>, pat: Seq<char>)
    requires
        lt_only_first(pat),
        forall|k: int| 0 <= k ==> !occurs_at(a, pat, k),
        b.len() > 0,
        b[0] == '<',
    ensures
        forall|k: int| 0 <= k < a.len() ==> !occurs_at(a + b, pat, k),
{
    let t = a + b;
    assert forall|k: int| 0 <= k < a.len() implies !occurs_at(t, pat, k) by {
        if occurs_at(t, pat, k) {
            if k + pat.len() <= a.len() {
                assert(a.subrange(k, k + pat.len()) =~= t.subrange(k, k + pat.len()));
                assert(occurs_at(a, pat, k));
            } else {
                let j = a.len() - k;
                assert(0 < j < pat.len());
                assert(t.subrange(k, k + pat.len())[j] == t[a.len() as int]);
                assert(t[a.len() as int] == b[0]);
                assert(pat[j] == '<');
            }
        }
    }
}

/// Whether a character is an ASCII decimal digit.
pub open spec fn is_digit(c: char) -> bool {
    '0' <= c <= '9'
}

/// The value of an ASCII digit.
pub open spec fn digit_value(c: char) -> nat {
    (c as u32 - '0' as u32) as nat
}

/// The value of a sequence of digits, most significant first.
pub open spec fn digits_value(d: Seq<char>) -> nat
    decreases d.len(),
{
    if d.len() == 0 { 0 } else { digits_value(d.drop_last()) * 10 + digit_value(d.last()) }
}

/// Number of leading digits of `s` from position `i`.
pub open spec fn digit_run(s: Seq<char>, i: int) -> int
    decreases s.len() - i,
{
    if i < 0 || i >= s.len() || !is_digit(s[i]) { 0 } else { 1 + digit_run(s, i + 1) }
}

proof fn lemma_digit_char(d: nat)
    requires
        d < 10,
    ensures
        is_digit(crate::text::digit_char(d)),
        digit_value(crate::text::digit_char(d)) == d,
{
}

/// The decimal digits of `n` are digits, and their value is `n`.
pub proof fn lemma_nat_digits(n: nat)
    ensures
        digits_value(crate::text::nat_digits(n)) == n,
        forall|i: int| 0 <= i < crate::text::nat_digits(n).len() ==> is_digit(#[trigger] crate::text::nat_digits(n)[i]),
        crate::text::nat_digits(n).len() > 0,
    decreases n,
{
    let d = crate::text::nat_digits(n);
    if n < 10 {
        lemma_digit_char(n);
        assert(d.drop_last().len() == 0);
        assert(digits_value(d.drop_last()) == 0);
        assert(d.last() == crate::text::digit_char(n));
    } else {
        lemma_nat_digits(n / 10);
        lemma_digit_char(n % 10);
        assert((n / 10) * 10 + n % 10 == n) by (nonlinear_arith)
            requires
                n >= 10,
        ;
        assert(d.drop_last() == crate::text::nat_digits(n / 10));
        assert(d.last() == crate::text::digit_char(n % 10));
        assert(digits_value(d) == digits_value(d.drop_last()) * 10 + digit_value(d.last()));
        assert forall|i: int| 0 <= i < d.len() implies is_digit(#[trigger] d[i]) by {
            if i < d.len() - 1 {
                assert(d[i] == crate::text::nat_digits(n / 10)[i]);
            }
        }
    }
}

/// A run of digits followed by a non-digit is exactly that long.
pub proof fn lemma_digit_run(s: Seq<char>, i: int, n: int)
    requires
        0 <= i,
        0 <= n,
        i + n <= s.len(),
        forall|k: int| i <= k < i + n ==> is_digit(#[trigger] s[k]),
        i + n == s.len() || !is_digit(s[i + n]),
    ensures
        digit_run(s, i) == n,
    decreases n,
{
    if n > 0 {
        lemma_digit_run(s, i + 1, n - 1);
    }
}

/// Whether every character of `d` is a decimal digit.
pub open spec fn all_digits(d: Seq<char>) -> bool {
    forall|i: int| 0 <= i < d.len() ==> is_digit(#[trigger] d[i])
}

/// The digits that follow an optional leading `+`.
pub open spec fn after_plus(s: Seq<char>) -> Seq<char> {
    if s.len() > 0 && s[0] == '+' { s.drop_first() } else { s }
}

/// An unsigned 32-bit number as std's `str::parse` reads it: an optional `+`, then one or
/// more decimal digits whose value fits.
pub open spec fn u32_text_value(s: Seq<char>) -> Option<u32> {
    let d = after_plus(s);
    if d.len() > 0 && all_digits(d) && digits_value(d) <= u32::MAX {
        Some(digits_value(d) as u32)
    } else {
        None
    }
}

/// A signed 64-bit number as std's `str::parse` reads it: an optional `+` or `-`, then one
/// or more decimal digits whose value fits.
pub open spec fn i64_text_value(s: Seq<char>) -> Option<i64> {
    if s.len() > 0 && s[0] == '-' {
        let d = s.drop_first();
        if d.len() > 0 && all_digits(d) && digits_value(d) <= 0x8000_0000_0000_0000 {
            Some((-(digits_value(d) as int)) as i64)
        } else {
            None
        }
    } else {
        let d = after_plus(s);
        if d.len() > 0 && all_digits(d) && digits_value(d) <= i64::MAX {
            Some(digits_value(d) as i64)
        } else {
            None
        }
    }
}

/// The value of the digits `v[start..]` when they are all digits and the value is at most
/// `limit`.
fn digits_upto(v: &Vec<char>, start: usize, limit: u64) -> (r: Option<u64>)
    requires
        start <= v.len(),
    ensures
        match r {
            Some(x) => all_digits(v@.subrange(start as int, v@.len() as int))
                && x == digits_value(v@.subrange(start as int, v@.len() as int)) && x <= limit,
            None => !(all_digits(v@.subrange(start as int, v@.len() as int))
                && digits_value(v@.subrange(start as int, v@.len() as int)) <= limit),
        },
{
    let ghost full = v@.subrange(start as int, v@.len() as int);
    let mut val: u64 = 0;
    let mut i: usize = start;
    while i < v.len()
        invariant
            start <= i <= v.len(),
            full == v@.subrange(start as int, v@.len() as int),
            all_digits(v@.subrange(start as int, i as int)),
            val == digits_value(v@.subrange(start as int, i as int)),
            val <= limit,
        decreases v.len() - i,
    {
        let c = v[i];
        if !('0' <= c && c <= '9') {
            assert(full[i - start] == c);
            return None;
        }
        let d: u64 = (c as u32 - '0' as u32) as u64;
        let ghost next = v@.subrange(start as int, i as int + 1);
        assert(next.drop_last() =~= v@.subrange(start as int, i as int));
        assert(digits_value(next) == digits_value(next.drop_last()) * 10 + digit_value(next.last()));
        assert((val as u128) * 10 <= (u64::MAX as u128) * 10) by (nonlinear_arith)
            requires
                val <= u64::MAX,
        ;
        let nv: u128 = (val as u128) * 10 + (d as u128);
        if nv > limit as u128 {
            proof {
                crate::id_list::lemma_digits_value_mono(full, (i - start + 1) as int);
                assert(full.subrange(0, (i - start + 1) as int) =~= next);
            }
            return None;
        }
        val = nv as u64;
        i = i + 1;
        assert(v@.subrange(start as int, i as int) =~= next);
    }
    Some(val)
}

/// Reads an unsigned 32-bit number (see `u32_text_value`).
pub fn parse_u32_text(s: &str) -> (r: Option<u32>)
    ensures
        r == u32_text_value(s@),
{
    let v = crate::text::str_to_chars(s);
    let start: usize = if v.len() > 0 && v[0] == '+' { 1 } else { 0 };
    assert(v@.subrange(start as int, v@.len() as int) =~= after_plus(s@));
    if start == v.len() {
        return None;
    }
    match digits_upto(&v, start, 0xFFFF_FFFF) {
        Some(x) => Some(x as u32),
        None => None,
    }
}

/// Reads a signed 64-bit number (see `i64_text_value`).
pub fn parse_i64_text(s: &str) -> (r: Option<i64>)
    ensures
        r == i64_text_value(s@),
{
    let v = crate::text::str_to_chars(s);
    if v.len() > 0 && v[0] == '-' {
        assert(v@.subrange(1, v@.len() as int) =~= s@.drop_first());
        if v.len() == 1 {
            return None;
        }
        match digits_upto(&v, 1, 0x8000_0000_0000_0000) {
            Some(x) => {
                if x == 0x8000_0000_0000_0000 {
                    Some(i64::MIN)
                } else {
                    Some(-(x as i64))
                }
            },
            None => None,
        }
    } else {
        let start: usize = if v.len() > 0 && v[0] == '+' { 1 } else { 0 };
        assert(v@.subrange(start as int, v@.len() as int) =~= after_plus(s@));
        if start == v.len() {
            return None;
        }
        match digits_upto(&v, start, 0x7FFF_FFFF_FFFF_FFFF) {
            Some(x) => Some(x as i64),
            None => None,
        }
    }
}

} // verus!
