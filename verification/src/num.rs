use vstd::prelude::*;
use vstd::slice::slice_subrange;

verus! {

/// Whether `b` is an ASCII decimal digit.
pub open spec fn is_digit(b: u8) -> bool {
    48u8 <= b <= 57u8
}

/// Whether every byte of `s` is a decimal digit (an empty `s` counts).
pub open spec fn all_digits(s: Seq<u8>) -> bool {
    forall|i: int| 0 <= i < s.len() ==> is_digit(#[trigger] s[i])
}

/// Whether `s` is one or more decimal digits.
pub open spec fn nonempty_digits(s: Seq<u8>) -> bool {
    s.len() >= 1 && all_digits(s)
}

/// The value of a digit string read in base ten.
pub open spec fn dec_value(s: Seq<u8>) -> int
    decreases s.len(),
{
    if s.len() == 0 {
        0
    } else {
        10 * dec_value(s.drop_last()) + (s.last() - 48u8)
    }
}

/// `s` without one leading `+`, the only sign an unsigned number may carry.
pub open spec fn unsigned_body(s: Seq<u8>) -> Seq<u8> {
    if s.len() >= 1 && s[0] == 43u8 {
        s.subrange(1, s.len() as int)
    } else {
        s
    }
}

/// Whether `s` is a decimal numeral a 32-bit unsigned integer parses
/// from: an optional `+`, then digits only, with a value that fits.
pub open spec fn is_u32_token(s: Seq<u8>) -> bool {
    nonempty_digits(unsigned_body(s)) && dec_value(unsigned_body(s)) <= u32::MAX
}

/// The value of a well-formed unsigned numeral.
pub open spec fn u32_token_value(s: Seq<u8>) -> int {
    dec_value(unsigned_body(s))
}

/// A digit string's value is never negative.
pub proof fn lemma_dec_value_nonneg(s: Seq<u8>)
    requires
        all_digits(s),
    ensures
        dec_value(s) >= 0,
    decreases s.len(),
{
    if s.len() > 0 {
        assert(all_digits(s.drop_last()));
        lemma_dec_value_nonneg(s.drop_last());
    }
}

/// Reading more digits never shrinks the value.
pub proof fn lemma_dec_value_mono(s: Seq<u8>, j: int)
    requires
        all_digits(s),
        0 <= j <= s.len(),
    ensures
        dec_value(s.take(j)) <= dec_value(s),
    decreases s.len() - j,
{
    if j == s.len() {
        assert(s.take(j) =~= s);
    } else {
        let t = s.take(j + 1);
        assert(t.drop_last() =~= s.take(j));
        assert(all_digits(t.drop_last()));
        lemma_dec_value_nonneg(t.drop_last());
        lemma_dec_value_mono(s, j + 1);
    }
}

/// Parses a decimal numeral as `u32::from_str` reads it: an optional
/// leading `+`, then one or more digits, rejected when any other byte
/// stands in it or the value does not fit in 32 bits.
pub fn parse_u32(s: &[u8]) -> (r: Option<u32>)
    ensures
        is_u32_token(s@) ==> r == Some(u32_token_value(s@) as u32),
        !is_u32_token(s@) ==> r is None,
{
    let ghost body = unsigned_body(s@);
    let n = s.len();
    let start: usize = if n >= 1 && s[0] == 43u8 {
        1
    } else {
        0
    };
    proof {
        assert(body =~= s@.subrange(start as int, n as int));
    }
    if start >= n {
        return None;
    }
    let mut acc: u64 = 0;
    let mut i: usize = start;
    while i < n
        invariant
            start <= i <= n,
            n == s@.len(),
            start <= 1,
            body == unsigned_body(s@),
            body == s@.subrange(start as int, n as int),
            all_digits(body.take(i - start)),
            acc == dec_value(body.take(i - start)),
            acc <= u32::MAX,
        decreases n - i,
    {
        let c = s[i];
        if !(48u8 <= c && c <= 57u8) {
            proof {
                assert(body[i - start] == c);
                assert(!all_digits(body));
            }
            return None;
        }
        proof {
            assert(body.take(i - start + 1).drop_last() =~= body.take(i - start));
            assert(body.take(i - start + 1).last() == c);
            assert(all_digits(body.take(i - start + 1)));
        }
        let next: u64 = acc * 10 + (c - 48u8) as u64;
        if next > 0xffff_ffff {
            proof {
                if is_u32_token(s@) {
                    assert(all_digits(body));
                    lemma_dec_value_mono(body, i - start + 1);
                }
            }
            return None;
        }
        acc = next;
        i += 1;
    }
    proof {
        assert(body.take(n - start) =~= body);
    }
    Some(acc as u32)
}

/// The decimal digits of `n`, most significant first.
pub open spec fn u32_digits(n: int) -> Seq<u8>
    decreases n,
{
    if n < 10 {
        seq![(n % 10 + 48u8) as u8]
    } else {
        u32_digits(n / 10).push((n % 10 + 48u8) as u8)
    }
}

/// Writes `n` in decimal, most significant digit first.
pub fn format_u32(n: u32) -> (r: Vec<u8>)
    ensures
        r@ == u32_digits(n as int),
    decreases n,
{
    if n < 10 {
        let mut v: Vec<u8> = Vec::new();
        v.push((n % 10) as u8 + 48u8);
        proof {
            assert(v@ =~= u32_digits(n as int));
        }
        v
    } else {
        let mut v = format_u32(n / 10);
        v.push((n % 10) as u8 + 48u8);
        v
    }
}

/// Whether `b` is a sign byte.
pub open spec fn is_sign(b: u8) -> bool {
    b == 43u8 || b == 45u8
}

/// `s` without one leading sign.
pub open spec fn strip_sign(s: Seq<u8>) -> Seq<u8> {
    if s.len() >= 1 && is_sign(s[0]) {
        s.subrange(1, s.len() as int)
    } else {
        s
    }
}

/// `b` folded to ASCII lower case.
pub open spec fn lower(b: u8) -> u8 {
    if 65u8 <= b <= 90u8 {
        (b + 32) as u8
    } else {
        b
    }
}

/// Whether `s` spells `t` up to ASCII case (`t` given in lower case).
pub open spec fn eq_ignore_case(s: Seq<u8>, t: Seq<u8>) -> bool {
    s.len() == t.len() && forall|i: int| 0 <= i < s.len() ==> lower(#[trigger] s[i]) == t[i]
}

/// The position of the first `b1` or `b2` in `s` at or after `i`, or `-1`.
pub open spec fn scan2(s: Seq<u8>, b1: u8, b2: u8, i: int) -> int
    decreases s.len() - i,
{
    if i < 0 || i >= s.len() {
        -1
    } else if s[i] == b1 || s[i] == b2 {
        i
    } else {
        scan2(s, b1, b2, i + 1)
    }
}

/// The significand of a floating-point numeral: digits with at most one
/// point among them, and at least one digit. The split is at the first
/// point; digits carry no point, so no second split could do.
pub open spec fn is_mantissa(s: Seq<u8>) -> bool {
    let k = scan2(s, 46u8, 46u8, 0);
    if k == -1 {
        nonempty_digits(s)
    } else {
        all_digits(s.take(k)) && all_digits(s.subrange(k + 1, s.len() as int)) && (k >= 1 || k + 1
            < s.len())
    }
}

/// An exponent part: an optional sign, then one or more digits.
pub open spec fn is_exp(s: Seq<u8>) -> bool {
    nonempty_digits(strip_sign(s))
}

/// A numeral without its leading sign: a significand, optionally followed
/// by `e` or `E` and an exponent. The split is at the first `e` or `E`;
/// a significand holds neither, so no second split could do.
pub open spec fn is_float_body(s: Seq<u8>) -> bool {
    let k = scan2(s, 101u8, 69u8, 0);
    if k == -1 {
        is_mantissa(s)
    } else {
        is_mantissa(s.take(k)) && is_exp(s.subrange(k + 1, s.len() as int))
    }
}

/// The words `inf`, `infinity` and `nan`, in any case.
pub open spec fn is_special(s: Seq<u8>) -> bool {
    ||| eq_ignore_case(s, seq![105u8, 110u8, 102u8])
    ||| eq_ignore_case(s, seq![105u8, 110u8, 102u8, 105u8, 110u8, 105u8, 116u8, 121u8])
    ||| eq_ignore_case(s, seq![110u8, 97u8, 110u8])
}

/// Whether `s` is a numeral that a single-precision value parses from,
/// as its documented grammar has it: an optional sign, then `inf`,
/// `infinity`, `nan` (in any case) or a numeral body. Out-of-range values
/// saturate to infinity and are still well-formed.
pub open spec fn is_float_token(s: Seq<u8>) -> bool {
    is_special(strip_sign(s)) || is_float_body(strip_sign(s))
}

/// ASCII lower case of one byte.
fn lower_byte(b: u8) -> (r: u8)
    ensures
        r == lower(b),
{
    if 65u8 <= b && b <= 90u8 {
        b + 32
    } else {
        b
    }
}

/// Whether every byte of `s` is a decimal digit.
fn check_digits(s: &[u8]) -> (r: bool)
    ensures
        r == all_digits(s@),
{
    let n = s.len();
    let mut i: usize = 0;
    while i < n
        invariant
            i <= n,
            n == s@.len(),
            forall|j: int| 0 <= j < i ==> is_digit(#[trigger] s@[j]),
        decreases n - i,
    {
        let c = s[i];
        if !(48u8 <= c && c <= 57u8) {
            return false;
        }
        i += 1;
    }
    true
}

/// The first position of `b1` or `b2` in `s`, if any.
pub(crate) fn scan2_exec(s: &[u8], b1: u8, b2: u8) -> (r: Option<usize>)
    ensures
        match r {
            Some(k) => k == scan2(s@, b1, b2, 0) && k < s@.len(),
            None => scan2(s@, b1, b2, 0) == -1,
        },
{
    let n = s.len();
    let mut i: usize = 0;
    while i < n
        invariant
            i <= n,
            n == s@.len(),
            scan2(s@, b1, b2, 0) == scan2(s@, b1, b2, i as int),
        decreases n - i,
    {
        let c = s[i];
        if c == b1 || c == b2 {
            return Some(i);
        }
        i += 1;
    }
    None
}

/// Whether `s` is a significand.
fn check_mantissa(s: &[u8]) -> (r: bool)
    ensures
        r == is_mantissa(s@),
{
    let n = s.len();
    match scan2_exec(s, 46u8, 46u8) {
        None => n >= 1 && check_digits(s),
        Some(k) => {
            let head = slice_subrange(s, 0, k);
            let tail = slice_subrange(s, k + 1, n);
            proof {
                assert(s@.take(k as int) =~= head@);
            }
            check_digits(head) && check_digits(tail) && (k >= 1 || k + 1 < n)
        },
    }
}

/// Whether `s` is an exponent part.
fn check_exp(s: &[u8]) -> (r: bool)
    ensures
        r == is_exp(s@),
{
    let n = s.len();
    let start: usize = if n >= 1 && (s[0] == 43u8 || s[0] == 45u8) {
        1
    } else {
        0
    };
    let body = slice_subrange(s, start, n);
    proof {
        assert(strip_sign(s@) =~= body@);
    }
    body.len() >= 1 && check_digits(body)
}

/// Whether `s` spells one of the special words, in any case.
fn check_special(s: &[u8]) -> (r: bool)
    ensures
        r == is_special(s@),
{
    if s.len() == 3 {
        let a = lower_byte(s[0]);
        let b = lower_byte(s[1]);
        let c = lower_byte(s[2]);
        (a == 105u8 && b == 110u8 && c == 102u8) || (a == 110u8 && b == 97u8 && c == 110u8)
    } else if s.len() == 8 {
        let ok = lower_byte(s[0]) == 105u8 && lower_byte(s[1]) == 110u8 && lower_byte(s[2])
            == 102u8 && lower_byte(s[3]) == 105u8 && lower_byte(s[4]) == 110u8 && lower_byte(s[5])
            == 105u8 && lower_byte(s[6]) == 116u8 && lower_byte(s[7]) == 121u8;
        proof {
            let w = seq![105u8, 110u8, 102u8, 105u8, 110u8, 105u8, 116u8, 121u8];
            assert(w[0] == 105u8 && w[1] == 110u8 && w[2] == 102u8 && w[3] == 105u8 && w[4]
                == 110u8 && w[5] == 105u8 && w[6] == 116u8 && w[7] == 121u8);
            if ok {
                assert forall|j: int| 0 <= j < s@.len() implies lower(#[trigger] s@[j]) == w[j] by {
                    assert(0 <= j < 8);
                }
                assert(eq_ignore_case(s@, w));
            } else {
                assert(!eq_ignore_case(s@, w));
            }
        }
        ok
    } else {
        false
    }
}

/// Whether `s` is a numeral a single-precision value parses from.
pub fn check_float_token(s: &[u8]) -> (r: bool)
    ensures
        r == is_float_token(s@),
{
    let n = s.len();
    let start: usize = if n >= 1 && (s[0] == 43u8 || s[0] == 45u8) {
        1
    } else {
        0
    };
    let body = slice_subrange(s, start, n);
    proof {
        assert(strip_sign(s@) =~= body@);
    }
    if check_special(body) {
        return true;
    }
    let m = body.len();
    match scan2_exec(body, 101u8, 69u8) {
        None => check_mantissa(body),
        Some(k) => {
            let head = slice_subrange(body, 0, k);
            let tail = slice_subrange(body, k + 1, m);
            proof {
                assert(body@.take(k as int) =~= head@);
            }
            check_mantissa(head) && check_exp(tail)
        },
    }
}

} // verus!
