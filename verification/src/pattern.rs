//! Byte-level scanning primitives: character classes, first-occurrence
//! searches, literal matching, range copies and saturating digit parsing.
//! The log grammar in the rest of the crate is built from these.

use vstd::prelude::*;

verus! {

/// A blank separating two groups of a log line: space or horizontal tab.
pub open spec fn is_ws(b: u8) -> bool {
    b == 32 || b == 9
}

pub open spec fn is_digit(b: u8) -> bool {
    48 <= b && b <= 57
}

pub open spec fn is_upper(b: u8) -> bool {
    65 <= b && b <= 90
}

pub open spec fn is_lower(b: u8) -> bool {
    97 <= b && b <= 122
}

/// A character allowed before the `T` of a timestamp: digit or `-`.
pub open spec fn is_ts_head(b: u8) -> bool {
    is_digit(b) || b == 45
}

/// A character allowed after the `T` of a timestamp: digit, `.`, `:` or `-`.
pub open spec fn is_ts_tail(b: u8) -> bool {
    is_digit(b) || b == 46 || b == 58 || b == 45
}

/// A character of a component or plan-summary token: upper-case letter or `_`.
pub open spec fn is_upper_tok(b: u8) -> bool {
    is_upper(b) || b == 95
}

/// A character of a command name: letter or `_`.
pub open spec fn is_alpha_tok(b: u8) -> bool {
    is_upper(b) || is_lower(b) || b == 95
}

/// The character classes a scan can look for.
#[derive(Clone, Copy)]
pub enum ByteClass {
    Ws,
    NonWs,
    NonDigit,
    NonTsHead,
    NonTsTail,
    NonUpperTok,
    NonAlphaTok,
    Exact(u8),
}

pub open spec fn in_class(c: ByteClass, b: u8) -> bool {
    match c {
        ByteClass::Ws => is_ws(b),
        ByteClass::NonWs => !is_ws(b),
        ByteClass::NonDigit => !is_digit(b),
        ByteClass::NonTsHead => !is_ts_head(b),
        ByteClass::NonTsTail => !is_ts_tail(b),
        ByteClass::NonUpperTok => !is_upper_tok(b),
        ByteClass::NonAlphaTok => !is_alpha_tok(b),
        ByteClass::Exact(x) => b == x,
    }
}

pub fn class_matches(c: ByteClass, b: u8) -> (r: bool)
    ensures
        r == in_class(c, b),
{
    match c {
        ByteClass::Ws => b == 32 || b == 9,
        ByteClass::NonWs => !(b == 32 || b == 9),
        ByteClass::NonDigit => !(48 <= b && b <= 57),
        ByteClass::NonTsHead => !(48 <= b && b <= 57 || b == 45),
        ByteClass::NonTsTail => !(48 <= b && b <= 57 || b == 46 || b == 58 || b == 45),
        ByteClass::NonUpperTok => !(65 <= b && b <= 90 || b == 95),
        ByteClass::NonAlphaTok => !(65 <= b && b <= 90 || 97 <= b && b <= 122 || b == 95),
        ByteClass::Exact(x) => b == x,
    }
}

/// Index of the first byte at or after `i` that falls in class `c`.
pub open spec fn spec_find(s: Seq<u8>, i: int, c: ByteClass) -> Option<int>
    decreases s.len() - i,
{
    if i < 0 || i >= s.len() {
        None
    } else if in_class(c, s[i]) {
        Some(i)
    } else {
        spec_find(s, i + 1, c)
    }
}

/// What a successful or failed search says about the bytes it passed over.
pub proof fn lemma_find_first(s: Seq<u8>, i: int, c: ByteClass)
    requires
        0 <= i <= s.len(),
    ensures
        match spec_find(s, i, c) {
            Some(j) => i <= j < s.len() && in_class(c, s[j]) && (forall|k: int|
                i <= k < j ==> !in_class(c, s[k])),
            None => forall|k: int| i <= k < s.len() ==> !in_class(c, s[k]),
        },
    decreases s.len() - i,
{
    if i < s.len() && !in_class(c, s[i]) {
        lemma_find_first(s, i + 1, c);
    }
}

pub fn find_from(v: &[u8], i: usize, c: ByteClass) -> (r: Option<usize>)
    ensures
        match r {
            Some(j) => spec_find(v@, i as int, c) == Some(j as int) && i <= j < v@.len(),
            None => spec_find(v@, i as int, c) is None,
        },
    decreases v@.len() - i,
{
    if i >= v.len() {
        None
    } else if class_matches(c, v[i]) {
        Some(i)
    } else {
        find_from(v, i + 1, c)
    }
}

/// No byte of `s[a..b]` falls in class `c`.
pub open spec fn none_in(s: Seq<u8>, a: int, b: int, c: ByteClass) -> bool {
    forall|k: int| a <= k < b ==> !in_class(c, s[k])
}

pub fn check_none_in(v: &[u8], a: usize, b: usize, c: ByteClass) -> (r: bool)
    requires
        a <= b <= v@.len(),
    ensures
        r == none_in(v@, a as int, b as int, c),
    decreases b - a,
{
    if a >= b {
        true
    } else if class_matches(c, v[a]) {
        proof {
            assert(in_class(c, v@[a as int]));
        }
        false
    } else {
        check_none_in(v, a + 1, b, c)
    }
}

/// The literal `lit` occurs in `s` starting at index `i`.
pub open spec fn spec_lit_at(s: Seq<u8>, i: int, lit: Seq<u8>) -> bool {
    0 <= i && i + lit.len() <= s.len() && s.subrange(i, i + lit.len()) == lit
}

fn eq_range(v: &[u8], i: usize, lit: &[u8], k: usize) -> (r: bool)
    requires
        i + lit@.len() <= v@.len(),
        k <= lit@.len(),
    ensures
        r == (forall|j: int| k <= j < lit@.len() ==> v@[i + j] == lit@[j]),
    decreases lit@.len() - k,
{
    let n = v.len();
    if k >= lit.len() {
        true
    } else if v[i + k] != lit[k] {
        proof {
            assert(v@[i + k as int] != lit@[k as int]);
        }
        false
    } else {
        eq_range(v, i, lit, k + 1)
    }
}

pub fn has_lit_at(v: &[u8], i: usize, lit: &[u8]) -> (r: bool)
    ensures
        r == spec_lit_at(v@, i as int, lit@),
{
    if i > v.len() || v.len() - i < lit.len() {
        false
    } else {
        let r = eq_range(v, i, lit, 0);
        proof {
            if r {
                assert(v@.subrange(i as int, i + lit@.len()) =~= lit@);
            } else {
                let j = choose|j: int| 0 <= j < lit@.len() && v@[i + j] != lit@[j];
                assert(v@.subrange(i as int, i + lit@.len())[j] != lit@[j]);
            }
        }
        r
    }
}

/// A copy of `v[a..b]` as an owned vector.
pub fn copy_range(v: &[u8], a: usize, b: usize) -> (r: Vec<u8>)
    requires
        a <= b <= v@.len(),
    ensures
        r@ == v@.subrange(a as int, b as int),
{
    let mut out: Vec<u8> = Vec::new();
    let mut i = a;
    proof {
        assert(out@ =~= v@.subrange(a as int, a as int));
    }
    while i < b
        invariant
            a <= i <= b <= v@.len(),
            out@ == v@.subrange(a as int, i as int),
        decreases b - i,
    {
        out.push(v[i]);
        proof {
            assert(v@.subrange(a as int, i + 1) =~= v@.subrange(a as int, i as int).push(
                v@[i as int],
            ));
        }
        i += 1;
    }
    out
}

/// The integer a run of decimal digits denotes.
pub open spec fn digits_val(s: Seq<u8>) -> int
    decreases s.len(),
{
    if s.len() == 0 {
        0
    } else {
        digits_val(s.drop_last()) * 10 + (s.last() - 48)
    }
}

pub proof fn lemma_digits_val_nonneg(s: Seq<u8>)
    requires
        forall|k: int| 0 <= k < s.len() ==> is_digit(s[k]),
    ensures
        digits_val(s) >= 0,
    decreases s.len(),
{
    if s.len() > 0 {
        lemma_digits_val_nonneg(s.drop_last());
    }
}

/// The denoted integer, capped at the largest signed 64-bit value.
pub open spec fn sat_i64(s: Seq<u8>) -> i64 {
    if digits_val(s) > i64::MAX {
        i64::MAX
    } else {
        digits_val(s) as i64
    }
}

/// Reads the digit run `v[a..b]` as a 64-bit integer, saturating on overflow.
pub fn parse_digits_sat(v: &[u8], a: usize, b: usize) -> (r: i64)
    requires
        a <= b <= v@.len(),
        forall|k: int| a <= k < b ==> is_digit(v@[k]),
    ensures
        r == sat_i64(v@.subrange(a as int, b as int)),
{
    let mut acc: i64 = 0;
    let mut i = a;
    proof {
        assert(v@.subrange(a as int, a as int) =~= Seq::<u8>::empty());
    }
    while i < b
        invariant
            a <= i <= b <= v@.len(),
            forall|k: int| a <= k < b ==> is_digit(v@[k]),
            acc == sat_i64(v@.subrange(a as int, i as int)),
        decreases b - i,
    {
        let d = (v[i] - 48) as i64;
        proof {
            let sub = v@.subrange(a as int, i as int);
            let sub2 = v@.subrange(a as int, i + 1);
            assert(sub2 =~= sub.push(v@[i as int]));
            assert(sub2.drop_last() =~= sub);
            lemma_digits_val_nonneg(sub);
            assert(digits_val(sub2) == digits_val(sub) * 10 + d);
        }
        if acc > 922337203685477580i64 || (acc == 922337203685477580i64 && d > 7) {
            acc = i64::MAX;
        } else {
            acc = acc * 10 + d;
        }
        i += 1;
    }
    acc
}

} // verus!
