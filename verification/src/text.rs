//! Byte-string helpers: substring search, prefixes, trimming and decimal
//! formatting, with exact specifications over `Seq<u8>`.
use vstd::prelude::*;

verus! {

/// True when pattern `p` occurs in `s` starting at position `i`.
pub open spec fn is_match_at(s: Seq<u8>, p: Seq<u8>, i: int) -> bool {
    &&& 0 <= i
    &&& i + p.len() <= s.len()
    &&& forall|j: int| 0 <= j < p.len() ==> s[i + j] == p[j]
}

/// Position of the first occurrence of `p` in `s` at or after position `i`,
/// if any.
pub open spec fn find_from(s: Seq<u8>, p: Seq<u8>, i: int) -> Option<int>
    decreases s.len() - i,
{
    if i < 0 || i + p.len() > s.len() {
        None
    } else if is_match_at(s, p, i) {
        Some(i)
    } else {
        find_from(s, p, i + 1)
    }
}

/// Position of the first occurrence of `p` anywhere in `s`, if any.
pub open spec fn find_sub_spec(s: Seq<u8>, p: Seq<u8>) -> Option<int> {
    find_from(s, p, 0)
}

/// True when `p` is a prefix of `s`.
pub open spec fn has_prefix(s: Seq<u8>, p: Seq<u8>) -> bool {
    is_match_at(s, p, 0)
}

/// `s` with every trailing occurrence of the byte `b` removed.
pub open spec fn trim_trailing(s: Seq<u8>, b: u8) -> Seq<u8>
    decreases s.len(),
{
    if s.len() > 0 && s.last() == b {
        trim_trailing(s.drop_last(), b)
    } else {
        s
    }
}

/// Every answer of `find_from` points at the first match at or after `i`.
pub proof fn lemma_find_from_props(s: Seq<u8>, p: Seq<u8>, i: int)
    requires
        0 <= i,
    ensures
        match find_from(s, p, i) {
            Some(j) => i <= j && is_match_at(s, p, j) && (forall|k: int|
                i <= k < j ==> !is_match_at(s, p, k)),
            None => forall|k: int| i <= k ==> !is_match_at(s, p, k),
        },
    decreases s.len() - i,
{
    if i + p.len() > s.len() {
    } else if is_match_at(s, p, i) {
    } else {
        lemma_find_from_props(s, p, i + 1);
    }
}

/// Whether two byte strings are equal.
pub fn bytes_eq(a: &[u8], b: &[u8]) -> (r: bool)
    ensures
        r == (a@ == b@),
{
    if a.len() != b.len() {
        proof {
            if a@ == b@ {
                assert(a@.len() == b@.len());
            }
        }
        return false;
    }
    let r = match_at(a, b, 0);
    proof {
        if r {
            assert(a@ =~= b@);
        } else {
            if a@ == b@ {
                assert(is_match_at(a@, b@, 0));
            }
        }
    }
    r
}

/// Whether `p` matches `s` at position `i`, decided in one left-to-right scan.
pub fn match_at(s: &[u8], p: &[u8], i: usize) -> (b: bool)
    requires
        i + p@.len() <= s@.len(),
    ensures
        b == is_match_at(s@, p@, i as int),
{
    let n = s.len();
    let mut j: usize = 0;
    while j < p.len()
        invariant
            j <= p@.len(),
            i + p@.len() <= s@.len(),
            n == s@.len(),
            forall|k: int| 0 <= k < j ==> s@[i + k] == p@[k],
        decreases p@.len() - j,
    {
        assert(i + j < n);
        if s[i + j] != p[j] {
            assert(!is_match_at(s@, p@, i as int)) by {
                assert(s@[i + j] != p@[j as int]);
            }
            return false;
        }
        j += 1;
    }
    true
}

/// Position of the first occurrence of `p` in `s`, searched left to right.
pub fn find_sub(s: &[u8], p: &[u8]) -> (r: Option<usize>)
    ensures
        match r {
            Some(i) => find_sub_spec(s@, p@) == Some(i as int),
            None => find_sub_spec(s@, p@) is None,
        },
{
    if p.len() > s.len() {
        return None;
    }
    let mut i: usize = 0;
    while i <= s.len() - p.len()
        invariant
            i <= s@.len(),
            p@.len() <= s@.len(),
            find_from(s@, p@, 0) == find_from(s@, p@, i as int),
        decreases s@.len() - i,
    {
        if match_at(s, p, i) {
            return Some(i);
        }
        i += 1;
    }
    None
}

/// Whether `p` is a prefix of `s`.
pub fn starts_with(s: &[u8], p: &[u8]) -> (b: bool)
    ensures
        b == has_prefix(s@, p@),
{
    if p.len() > s.len() {
        return false;
    }
    match_at(s, p, 0)
}

/// Copy of `s` with every trailing occurrence of the byte `b` removed.
pub fn trim_trailing_byte(s: &[u8], b: u8) -> (r: Vec<u8>)
    ensures
        r@ == trim_trailing(s@, b),
{
    let mut end: usize = s.len();
    proof {
        assert(s@.subrange(0, end as int) =~= s@);
    }
    while end > 0 && s[end - 1] == b
        invariant
            end <= s@.len(),
            trim_trailing(s@, b) == trim_trailing(s@.subrange(0, end as int), b),
        decreases end,
    {
        proof {
            assert(s@.subrange(0, end as int).drop_last() =~= s@.subrange(0, end - 1 as int));
        }
        end -= 1;
    }
    let r = vstd::slice::slice_to_vec(vstd::slice::slice_subrange(s, 0, end));
    proof {
        if end > 0 {
            assert(trim_trailing(s@.subrange(0, end as int), b) =~= s@.subrange(0, end as int));
        } else {
            assert(trim_trailing(s@.subrange(0, 0), b) =~= s@.subrange(0, 0));
        }
    }
    r
}

/// `s` with every leading occurrence of the byte `b` removed.
pub open spec fn trim_leading(s: Seq<u8>, b: u8) -> Seq<u8>
    decreases s.len(),
{
    if s.len() > 0 && s[0] == b {
        trim_leading(s.drop_first(), b)
    } else {
        s
    }
}

/// `s` with every leading and trailing occurrence of the byte `b` removed.
pub open spec fn trim_both(s: Seq<u8>, b: u8) -> Seq<u8> {
    trim_trailing(trim_leading(s, b), b)
}

/// Copy of `s` with every leading and trailing occurrence of `b` removed.
pub fn trim_both_bytes(s: &[u8], b: u8) -> (r: Vec<u8>)
    ensures
        r@ == trim_both(s@, b),
{
    let n = s.len();
    let mut start: usize = 0;
    proof {
        assert(s@.subrange(0, n as int) =~= s@);
    }
    while start < n && s[start] == b
        invariant
            start <= n,
            n == s@.len(),
            trim_leading(s@, b) == trim_leading(s@.subrange(start as int, n as int), b),
        decreases n - start,
    {
        proof {
            assert(s@.subrange(start as int, n as int).drop_first() =~= s@.subrange(
                start + 1 as int,
                n as int,
            ));
        }
        start += 1;
    }
    let lead = vstd::slice::slice_subrange(s, start, n);
    proof {
        assert(trim_leading(s@.subrange(start as int, n as int), b) =~= s@.subrange(
            start as int,
            n as int,
        ));
        assert(lead@ =~= trim_leading(s@, b));
    }
    trim_trailing_byte(lead, b)
}

/// Concatenation of two byte strings into a fresh vector.
pub fn concat_bytes(a: &[u8], b: &[u8]) -> (r: Vec<u8>)
    ensures
        r@ == a@ + b@,
{
    let mut r = vstd::slice::slice_to_vec(a);
    r.extend_from_slice(b);
    r
}

/// True for ASCII digit bytes.
pub open spec fn is_digit(c: u8) -> bool {
    48 <= c <= 57
}

/// First position at or after `j` holding a non-digit, or the length of `s`.
pub open spec fn digit_run_end(s: Seq<u8>, j: int) -> int
    decreases s.len() - j,
{
    if j < 0 || j >= s.len() {
        s.len() as int
    } else if is_digit(s[j]) {
        digit_run_end(s, j + 1)
    } else {
        j
    }
}

/// The digit run starting at `j` ends within bounds, holds digits only, and
/// ends at a non-digit or at the end.
pub proof fn lemma_digit_run_props(s: Seq<u8>, j: int)
    requires
        0 <= j <= s.len(),
    ensures
        j <= digit_run_end(s, j) <= s.len(),
        forall|k: int| j <= k < digit_run_end(s, j) ==> is_digit(#[trigger] s[k]),
        digit_run_end(s, j) < s.len() ==> !is_digit(s[digit_run_end(s, j)]),
    decreases s.len() - j,
{
    if j < s.len() && is_digit(s[j]) {
        lemma_digit_run_props(s, j + 1);
    }
}

/// First position at or after `j` holding a non-digit, found by scanning.
pub fn digit_run_end_exec(s: &[u8], j: usize) -> (r: usize)
    requires
        j <= s@.len(),
    ensures
        r == digit_run_end(s@, j as int),
        j <= r <= s@.len(),
{
    let n = s.len();
    let mut k = j;
    while k < n && 48 <= s[k] && s[k] <= 57
        invariant
            j <= k <= n,
            n == s@.len(),
            digit_run_end(s@, j as int) == digit_run_end(s@, k as int),
        decreases n - k,
    {
        k += 1;
    }
    k
}

/// The numeric value of a digit string (most significant digit first).
pub open spec fn dec_val(s: Seq<u8>) -> int
    decreases s.len(),
{
    if s.len() == 0 {
        0
    } else {
        dec_val(s.drop_last()) * 10 + (s.last() - 48)
    }
}

/// A digit string's value is non-negative.
pub proof fn lemma_dec_val_nonneg(s: Seq<u8>)
    requires
        forall|k: int| 0 <= k < s.len() ==> is_digit(#[trigger] s[k]),
    ensures
        dec_val(s) >= 0,
    decreases s.len(),
{
    if s.len() > 0 {
        lemma_dec_val_nonneg(s.drop_last());
        assert(forall|k: int|
            0 <= k < s.drop_last().len() ==> is_digit(#[trigger] s.drop_last()[k]));
        assert(dec_val(s.drop_last()) * 10 >= 0) by (nonlinear_arith)
            requires
                dec_val(s.drop_last()) >= 0,
        ;
    }
}

/// A digit string's value is at least the value of any of its prefixes.
pub proof fn lemma_dec_val_prefix(s: Seq<u8>, i: int)
    requires
        forall|k: int| 0 <= k < s.len() ==> is_digit(#[trigger] s[k]),
        0 <= i <= s.len(),
    ensures
        dec_val(s.take(i)) <= dec_val(s),
    decreases s.len() - i,
{
    if i < s.len() {
        lemma_dec_val_prefix(s, i + 1);
        let t = s.take(i + 1);
        assert(t.drop_last() =~= s.take(i));
        assert(forall|k: int| 0 <= k < t.len() ==> is_digit(#[trigger] t[k]));
        assert(forall|k: int|
            0 <= k < s.take(i).len() ==> is_digit(#[trigger] s.take(i)[k]));
        lemma_dec_val_nonneg(s.take(i));
        assert(dec_val(t) == dec_val(s.take(i)) * 10 + (t.last() - 48));
        assert(dec_val(s.take(i)) * 10 >= dec_val(s.take(i))) by (nonlinear_arith)
            requires
                dec_val(s.take(i)) >= 0,
        ;
    } else {
        assert(s.take(i) =~= s);
    }
}

/// The decimal digits (most significant first) of the natural number `n`.
pub open spec fn dec_digits(n: nat) -> Seq<u8>
    decreases n,
{
    if n < 10 {
        seq![(48 + n) as u8]
    } else {
        dec_digits(n / 10).push((48 + n % 10) as u8)
    }
}

/// The decimal representation of `n`, without sign or leading zeros.
pub fn u64_to_dec(n: u64) -> (r: Vec<u8>)
    ensures
        r@ == dec_digits(n as nat),
    decreases n,
{
    if n < 10 {
        let mut v: Vec<u8> = Vec::new();
        v.push(48 + n as u8);
        v
    } else {
        proof {
            assert(n / 10 < n) by (nonlinear_arith)
                requires
                    n >= 10,
            ;
        }
        let mut v = u64_to_dec(n / 10);
        v.push(48 + (n % 10) as u8);
        v
    }
}

} // verus!
