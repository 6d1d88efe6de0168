//! Byte-level primitives for the wire envelope: whitespace and literal
//! scanning, unsigned and fixed-point number parsing, and decimal
//! rendering. Text payloads are UTF-8 bytes; the envelope grammar itself
//! is ASCII.

use vstd::prelude::*;
use vstd::string::StringSliceAdditionalSpecFns;

use crate::arith::clamp_spec;
use crate::arith::tdiv;
use crate::measure::DIST_LIMIT;

verus! {

pub open spec fn is_ws_spec(b: u8) -> bool {
    b == 32 || b == 9 || b == 10 || b == 13
}

pub open spec fn is_digit_spec(b: u8) -> bool {
    48 <= b <= 57
}

/// Index of the first byte at or after `i` that is not JSON whitespace.
pub open spec fn spec_skip_ws(s: Seq<u8>, i: int) -> int
    decreases s.len() - i,
{
    if 0 <= i < s.len() && is_ws_spec(s[i]) {
        spec_skip_ws(s, i + 1)
    } else {
        i
    }
}

/// The pattern occurs at position `i`.
pub open spec fn spec_match_at(s: Seq<u8>, i: int, pat: Seq<u8>) -> bool {
    0 <= i && i + pat.len() <= s.len() && s.subrange(i, i + pat.len()) == pat
}

/// Length of the digit run starting at `i`.
pub open spec fn spec_digit_run(s: Seq<u8>, i: int) -> int
    decreases s.len() - i,
{
    if 0 <= i < s.len() && is_digit_spec(s[i]) {
        1 + spec_digit_run(s, i + 1)
    } else {
        0
    }
}

pub proof fn lemma_digit_run_bounds(s: Seq<u8>, i: int)
    requires
        0 <= i <= s.len(),
    ensures
        0 <= spec_digit_run(s, i),
        i + spec_digit_run(s, i) <= s.len(),
        forall|k: int| i <= k < i + spec_digit_run(s, i) ==> is_digit_spec(#[trigger] s[k]),
        i + spec_digit_run(s, i) == s.len() || !is_digit_spec(s[i + spec_digit_run(s, i)]),
    decreases s.len() - i,
{
    if 0 <= i < s.len() && is_digit_spec(s[i]) {
        lemma_digit_run_bounds(s, i + 1);
    }
}

/// A digit run of this exact extent pins the run length.
pub proof fn lemma_digit_run_exact(s: Seq<u8>, i: int, j: int)
    requires
        0 <= i <= j <= s.len(),
        forall|k: int| i <= k < j ==> is_digit_spec(#[trigger] s[k]),
        j == s.len() || !is_digit_spec(s[j]),
    ensures
        spec_digit_run(s, i) == j - i,
    decreases j - i,
{
    if i < j {
        lemma_digit_run_exact(s, i + 1, j);
    }
}

/// All-digit prefixes bound the run length from below.
pub proof fn lemma_digit_run_at_least(s: Seq<u8>, i: int, j: int)
    requires
        0 <= i <= j <= s.len(),
        forall|k: int| i <= k < j ==> is_digit_spec(#[trigger] s[k]),
    ensures
        spec_digit_run(s, i) >= j - i,
    decreases j - i,
{
    lemma_digit_run_bounds(s, i);
    if i < j {
        lemma_digit_run_at_least(s, i + 1, j);
    }
}

/// Value of the `n` digits starting at `i`, most significant first.
pub open spec fn spec_digits_val(s: Seq<u8>, i: int, n: int) -> int
    decreases n,
{
    if n <= 0 {
        0
    } else {
        spec_digits_val(s, i, n - 1) * 10 + (s[i + n - 1] - 48)
    }
}

pub proof fn lemma_digits_val_bounds(s: Seq<u8>, i: int, n: int)
    requires
        0 <= i,
        i + n <= s.len(),
        forall|k: int| i <= k < i + n ==> is_digit_spec(#[trigger] s[k]),
    ensures
        0 <= spec_digits_val(s, i, n),
        n >= 1 ==> spec_digits_val(s, i, n) < pow10(n as nat),
    decreases n,
{
    if n > 0 {
        lemma_digits_val_bounds(s, i, n - 1);
        if n == 1 {
            assert(spec_digits_val(s, i, 0) == 0);
        } else {
            assert(spec_digits_val(s, i, n - 1) < pow10((n - 1) as nat));
            assert(spec_digits_val(s, i, n - 1) * 10 + (s[i + n - 1] - 48) < pow10((n - 1) as nat)
                * 10) by (nonlinear_arith)
                requires
                    spec_digits_val(s, i, n - 1) < pow10((n - 1) as nat),
                    s[i + n - 1] - 48 < 10,
            ;
        }
    }
}

pub open spec fn pow10(n: nat) -> int
    decreases n,
{
    if n == 0 {
        1
    } else {
        10 * pow10((n - 1) as nat)
    }
}

fn is_ws(b: u8) -> (r: bool)
    ensures
        r == is_ws_spec(b),
{
    b == 32 || b == 9 || b == 10 || b == 13
}

fn is_digit(b: u8) -> (r: bool)
    ensures
        r == is_digit_spec(b),
{
    48 <= b && b <= 57
}

/// Advances past JSON whitespace.
pub fn skip_ws(s: &Vec<u8>, i: usize) -> (r: usize)
    requires
        i <= s@.len(),
    ensures
        r as int == spec_skip_ws(s@, i as int),
        i <= r <= s@.len(),
{
    let mut j = i;
    while j < s.len() && is_ws(s[j])
        invariant
            i <= j <= s@.len(),
            spec_skip_ws(s@, i as int) == spec_skip_ws(s@, j as int),
        decreases s@.len() - j,
    {
        j += 1;
    }
    j
}

/// Tests whether the pattern's bytes occur at position `i`.
pub fn match_lit(s: &Vec<u8>, i: usize, pat: &str) -> (r: bool)
    requires
        i <= s@.len(),
    ensures
        r == spec_match_at(s@, i as int, pat.spec_bytes()),
{
    let pb = pat.as_bytes();
    let n = pb.len();
    let sn = s.len();
    if n > sn - i {
        return false;
    }
    let mut j: usize = 0;
    while j < n
        invariant
            j <= n,
            pb@ == pat.spec_bytes(),
            n == pat.spec_bytes().len(),
            sn == s@.len(),
            i + n <= s@.len(),
            forall|k: int| 0 <= k < j ==> s@[i + k] == pat.spec_bytes()[k],
        decreases n - j,
    {
        if s[i + j] != pb[j] {
            proof {
                if spec_match_at(s@, i as int, pat.spec_bytes()) {
                    let ij = i as int + j as int;
                    assert(s@.subrange(i as int, i as int + pat.spec_bytes().len() as int)[j as int]
                        == s@[ij]);
                }
            }
            return false;
        }
        j += 1;
    }
    proof {
        assert(s@.subrange(i as int, i as int + n as int) =~= pat.spec_bytes());
    }
    true
}

/// Parses an unsigned decimal of 1 to 10 digits into a `u32`; rejects
/// longer runs and values over `u32::MAX`.
pub open spec fn spec_parse_u32(s: Seq<u8>, i: int) -> Option<(u32, int)> {
    let n = spec_digit_run(s, i);
    if n < 1 || n > 10 {
        None
    } else {
        let v = spec_digits_val(s, i, n);
        if v <= u32::MAX {
            Some((v as u32, i + n))
        } else {
            None
        }
    }
}

/// Reads a digit run of at most `max_digits` digits into a `u64`;
/// reports the value and the index after the run, or nothing when there
/// is no digit or the run is longer.
fn read_digits(s: &Vec<u8>, i: usize, max_digits: usize) -> (r: Option<(u64, usize)>)
    requires
        i <= s@.len(),
        1 <= max_digits <= 19,
    ensures
        (match r {
            Some((v, j)) => {
                &&& i < j <= s@.len()
                &&& spec_digit_run(s@, i as int) == j - i
                &&& 1 <= j - i <= max_digits
                &&& v as int == spec_digits_val(s@, i as int, j - i)
            },
            None => spec_digit_run(s@, i as int) == 0 || spec_digit_run(s@, i as int)
                > max_digits,
        }),
{
    proof {
        lemma_digit_run_bounds(s@, i as int);
    }
    if i >= s.len() || !is_digit(s[i]) {
        return None;
    }
    let sn = s.len();
    let mut j = i + 1;
    let mut acc: u64 = (s[i] - 48) as u64;
    proof {
        lemma_pow10_le(1nat, max_digits as nat);
        lemma_pow10_vals();
        assert(spec_digits_val(s@, i as int, 0) == 0);
        assert(spec_digits_val(s@, i as int, 1) == spec_digits_val(s@, i as int, 0) * 10 + (s@[
            i as int
        ] - 48));
    }
    while j < sn && j - i < max_digits && is_digit(s[j])
        invariant
            i < j <= s@.len(),
            sn == s@.len(),
            j - i <= max_digits,
            1 <= max_digits <= 19,
            forall|k: int| i <= k < j ==> is_digit_spec(#[trigger] s@[k]),
            acc as int == spec_digits_val(s@, i as int, j - i),
            (acc as int) < pow10((j - i) as nat),
            pow10((j - i) as nat) <= pow10(max_digits as nat),
        decreases s@.len() - j,
    {
        proof {
            lemma_pow10_vals();
            lemma_pow10_le(((j - i) + 1) as nat, max_digits as nat);
            lemma_pow10_le(max_digits as nat, 19nat);
            assert(acc as int * 10 + 9 < pow10(((j - i) + 1) as nat)) by (nonlinear_arith)
                requires
                    (acc as int) < pow10((j - i) as nat),
                    pow10(((j - i) + 1) as nat) == 10 * pow10((j - i) as nat),
            ;
        }
        acc = acc * 10 + (s[j] - 48) as u64;
        j += 1;
    }
    if j < sn && is_digit(s[j]) {
        proof {
            lemma_digit_run_at_least(s@, i as int, j as int + 1);
        }
        return None;
    }
    proof {
        lemma_digit_run_exact(s@, i as int, j as int);
    }
    Some((acc, j))
}

proof fn lemma_pow10_vals()
    ensures
        pow10(0nat) == 1,
        pow10(1nat) == 10,
        pow10(3nat) == 1000,
        pow10(10nat) == 10_000_000_000,
        pow10(19nat) == 10_000_000_000_000_000_000,
        pow10(21nat) == 1_000_000_000_000_000_000_000,
        pow10(29nat) == 100_000_000_000_000_000_000_000_000_000,
        pow10(30nat) == 1_000_000_000_000_000_000_000_000_000_000,
{
    reveal_with_fuel(pow10, 31);
}

proof fn lemma_pow10_le(a: nat, b: nat)
    requires
        a <= b,
    ensures
        pow10(a) <= pow10(b),
    decreases b,
{
    if a < b {
        lemma_pow10_le(a, (b - 1) as nat);
        assert(pow10(b) == 10 * pow10((b - 1) as nat));
        assert(pow10(a) >= 1) by {
            lemma_pow10_pos(a);
        }
        assert(10 * pow10((b - 1) as nat) >= pow10((b - 1) as nat)) by (nonlinear_arith)
            requires
                pow10((b - 1) as nat) >= 1,
        ;
        lemma_pow10_pos((b - 1) as nat);
    }
}

proof fn lemma_pow10_pos(a: nat)
    ensures
        pow10(a) >= 1,
    decreases a,
{
    if a > 0 {
        lemma_pow10_pos((a - 1) as nat);
    }
}

/// Parses an unsigned decimal into a `u32`.
pub fn parse_u32(s: &Vec<u8>, i: usize) -> (r: Option<(u32, usize)>)
    requires
        i <= s@.len(),
    ensures
        (match r {
            Some((v, j)) => spec_parse_u32(s@, i as int) == Some((v, j as int)) && i < j
                <= s@.len(),
            None => spec_parse_u32(s@, i as int) is None,
        }),
{
    match read_digits(s, i, 10) {
        Some((v, j)) => {
            if v <= 0xFFFF_FFFF {
                Some((v as u32, j))
            } else {
                None
            }
        },
        None => None,
    }
}

/// The exact value of a parsed decimal-with-exponent, in thousandths,
/// truncated toward zero and clamped into the engine's distance range
/// (the same clamp that recording applies).
pub open spec fn spec_milli_value(neg: bool, iv: int, fv: int, fr: int, e: int) -> int {
    let all = iv * pow10(fr as nat) + fv;
    let k = e - fr + 3;
    let mag = if k >= 0 {
        all * pow10(k as nat)
    } else {
        tdiv(all, pow10((-k) as nat))
    };
    clamp_spec(
        if neg {
            -mag
        } else {
            mag
        },
        -(DIST_LIMIT as int),
        DIST_LIMIT as int,
    )
}

/// A JSON number read in thousandths of a unit: optional minus, 1 to 10
/// integer digits, optionally a point with 1 to 10 fraction digits, and
/// optionally an exponent of 1 to 3 digits (the engine's numeric
/// limits); the value is truncated to whole thousandths and clamped
/// into the distance range.
pub open spec fn spec_parse_milli(s: Seq<u8>, i: int) -> Option<(int, int)> {
    if !(0 <= i < s.len()) {
        None
    } else {
        let neg = s[i] == 45;
        let i0 = if neg {
            i + 1
        } else {
            i
        };
        let n = spec_digit_run(s, i0);
        if n < 1 || n > 10 {
            None
        } else {
            let iv = spec_digits_val(s, i0, n);
            let ii = i0 + n;
            if ii < s.len() && s[ii] == 46 {
                let fr = spec_digit_run(s, ii + 1);
                if fr < 1 || fr > 10 {
                    None
                } else {
                    spec_parse_milli_exp(
                        s,
                        ii + 1 + fr,
                        neg,
                        iv,
                        spec_digits_val(s, ii + 1, fr),
                        fr,
                    )
                }
            } else {
                spec_parse_milli_exp(s, ii, neg, iv, 0, 0)
            }
        }
    }
}

/// The optional exponent part, then the value.
pub open spec fn spec_parse_milli_exp(
    s: Seq<u8>,
    jj: int,
    neg: bool,
    iv: int,
    fv: int,
    fr: int,
) -> Option<(int, int)> {
    if jj < s.len() && (s[jj] == 101 || s[jj] == 69) {
        let eneg = jj + 1 < s.len() && s[jj + 1] == 45;
        let j0 = if jj + 1 < s.len() && (s[jj + 1] == 43 || s[jj + 1] == 45) {
            jj + 2
        } else {
            jj + 1
        };
        let er = spec_digit_run(s, j0);
        if er < 1 || er > 3 {
            None
        } else {
            let ev = spec_digits_val(s, j0, er);
            Some(
                (
                    spec_milli_value(
                        neg,
                        iv,
                        fv,
                        fr,
                        if eneg {
                            -ev
                        } else {
                            ev
                        },
                    ),
                    j0 + er,
                ),
            )
        }
    } else {
        Some((spec_milli_value(neg, iv, fv, fr, 0), jj))
    }
}

/// One power of ten.
fn pow10_u128(e: u32) -> (r: u128)
    requires
        e <= 30,
    ensures
        r as int == pow10(e as nat),
{
    proof {
        lemma_pow10_vals();
    }
    let mut r: u128 = 1;
    let mut k: u32 = 0;
    while k < e
        invariant
            k <= e <= 30,
            r as int == pow10(k as nat),
        decreases e - k,
    {
        proof {
            lemma_pow10_vals();
            lemma_pow10_le(k as nat, 29nat);
        }
        r = r * 10;
        k = k + 1;
    }
    r
}

/// Computes the clamped thousandths value of a parsed number.
fn milli_value(neg: bool, iv: u64, fv: u64, fr: u32, e: i64) -> (r: i64)
    requires
        iv < 10_000_000_000,
        fv < 10_000_000_000,
        (fv as int) < pow10(fr as nat),
        fr <= 10,
        -999 <= e <= 999,
    ensures
        r as int == spec_milli_value(neg, iv as int, fv as int, fr as int, e as int),
{
    proof {
        lemma_pow10_vals();
        lemma_pow10_le(fr as nat, 10nat);
        assert((iv as int * pow10(fr as nat) + fv as int) < 200_000_000_000_000_000_000)
            by (nonlinear_arith)
            requires
                0 <= iv && (iv as int) < 10_000_000_000,
                0 <= fv && (fv as int) < 10_000_000_000,
                1 <= pow10(fr as nat) <= 10_000_000_000,
        ;
        assert(iv as int * pow10(fr as nat) >= 0) by (nonlinear_arith)
            requires
                iv >= 0,
                pow10(fr as nat) >= 1,
        ;
    }
    let all: u128 = (iv as u128) * pow10_u128(fr) + (fv as u128);
    let ghost alli = iv as int * pow10(fr as nat) + fv as int;
    let k: i64 = e - (fr as i64) + 3;
    let ghost mag = if k as int >= 0 {
        alli * pow10(k as nat)
    } else {
        tdiv(alli, pow10((-(k as int)) as nat))
    };
    let magc: u64 = if all == 0 {
        proof {
            if k as int >= 0 {
                assert(0int * pow10(k as nat) == 0) by (nonlinear_arith);
            } else {
                lemma_pow10_pos((-(k as int)) as nat);
                assert(0int / pow10((-(k as int)) as nat) == 0) by (nonlinear_arith)
                    requires
                        pow10((-(k as int)) as nat) >= 1,
                ;
            }
        }
        0
    } else if k >= 10 {
        proof {
            lemma_pow10_le(10nat, k as nat);
            assert(alli * pow10(k as nat) >= pow10(k as nat)) by (nonlinear_arith)
                requires
                    alli >= 1,
                    pow10(k as nat) >= 1,
            ;
        }
        1_000_000_000
    } else if k >= 0 {
        let p10 = pow10_u128(k as u32);
        proof {
            lemma_pow10_le(k as nat, 10nat);
            lemma_pow10_vals();
            lemma_pow10_pos(k as nat);
            assert(alli * (p10 as int) < 200_000_000_000_000_000_000 * 10_000_000_000)
                by (nonlinear_arith)
                requires
                    0 <= alli < 200_000_000_000_000_000_000,
                    0 <= p10 as int <= 10_000_000_000,
            ;
            assert(alli * (p10 as int) >= 0) by (nonlinear_arith)
                requires
                    alli >= 0,
                    p10 as int >= 0,
            ;
        }
        let p = all * p10;
        if p > 1_000_000_000 {
            1_000_000_000
        } else {
            p as u64
        }
    } else {
        let m = (-k) as u32;
        proof {
            lemma_pow10_pos(m as nat);
        }
        if m >= 21 {
            proof {
                lemma_pow10_le(21nat, m as nat);
                assert(alli / pow10(m as nat) == 0) by (nonlinear_arith)
                    requires
                        0 <= alli < 200_000_000_000_000_000_000,
                        pow10(m as nat) >= 1_000_000_000_000_000_000_000,
                ;
            }
            0
        } else {
            let p10 = pow10_u128(m);
            let q = all / p10;
            if q > 1_000_000_000 {
                1_000_000_000
            } else {
                q as u64
            }
        }
    };
    proof {
        assert(magc as int == clamp_spec(mag, -(DIST_LIMIT as int), DIST_LIMIT as int) || (mag
            > DIST_LIMIT as int && magc == 1_000_000_000));
        assert(mag >= 0);
        assert(magc as int == clamp_spec(
            if neg {
                -mag
            } else {
                mag
            },
            -(DIST_LIMIT as int),
            DIST_LIMIT as int,
        ) || (neg && (-magc as int) == clamp_spec(
            -mag,
            -(DIST_LIMIT as int),
            DIST_LIMIT as int,
        )) || !neg);
    }
    if neg {
        -(magc as i64)
    } else {
        magc as i64
    }
}

/// Parses a JSON number into thousandths.
pub fn parse_milli(s: &Vec<u8>, i: usize) -> (r: Option<(i64, usize)>)
    requires
        i <= s@.len(),
    ensures
        (match r {
            Some((v, j)) => spec_parse_milli(s@, i as int) == Some((v as int, j as int)) && i < j
                <= s@.len(),
            None => spec_parse_milli(s@, i as int) is None,
        }),
{
    let sn = s.len();
    if i >= sn {
        return None;
    }
    let neg = s[i] == 45;
    let i0 = if neg {
        i + 1
    } else {
        i
    };
    let (iv, ii) = match read_digits(s, i0, 10) {
        Some(p) => p,
        None => {
            return None;
        },
    };
    proof {
        lemma_digit_run_bounds(s@, i0 as int);
        lemma_digits_val_bounds(s@, i0 as int, ii - i0);
        lemma_pow10_le((ii - i0) as nat, 10nat);
        lemma_pow10_vals();
        assert(iv < 10_000_000_000u64);
    }
    let (fv, fr, jj): (u64, u32, usize) = if ii < sn && s[ii] == 46 {
        let (fv0, fe) = match read_digits(s, ii + 1, 10) {
            Some(p) => p,
            None => {
                return None;
            },
        };
        proof {
            lemma_digit_run_bounds(s@, ii as int + 1);
            lemma_digits_val_bounds(s@, ii as int + 1, fe - (ii + 1));
            lemma_pow10_le((fe - (ii + 1)) as nat, 10nat);
            assert(fv0 < 10_000_000_000u64);
        }
        (fv0, (fe - (ii + 1)) as u32, fe)
    } else {
        (0u64, 0u32, ii)
    };
    if jj < sn && (s[jj] == 101 || s[jj] == 69) {
        let eneg = jj + 1 < sn && s[jj + 1] == 45;
        let j0 = if jj + 1 < sn && (s[jj + 1] == 43 || s[jj + 1] == 45) {
            jj + 2
        } else {
            jj + 1
        };
        let (ev, ee) = match read_digits(s, j0, 3) {
            Some(p) => p,
            None => {
                return None;
            },
        };
        proof {
            lemma_digit_run_bounds(s@, j0 as int);
            lemma_digits_val_bounds(s@, j0 as int, ee - j0);
            lemma_pow10_le((ee - j0) as nat, 3nat);
            lemma_pow10_vals();
            assert(ev < 1000u64);
        }
        let e: i64 = if eneg {
            -(ev as i64)
        } else {
            ev as i64
        };
        let v = milli_value(neg, iv, fv, fr, e);
        Some((v, ee))
    } else {
        let v = milli_value(neg, iv, fv, fr, 0);
        Some((v, jj))
    }
}

/// Decimal digits of a natural number, most significant first.
pub open spec fn spec_dec(n: nat) -> Seq<u8>
    decreases n,
{
    if n < 10 {
        seq![(48 + n) as u8]
    } else {
        spec_dec(n / 10) + seq![(48 + n % 10) as u8]
    }
}

/// Appends the decimal digits of `n`.
pub fn push_dec_u32(out: &mut Vec<u8>, n: u32)
    ensures
        final(out)@ == old(out)@ + spec_dec(n as nat),
    decreases n,
{
    if n >= 10 {
        push_dec_u32(out, n / 10);
    }
    out.push(48 + (n % 10) as u8);
    proof {
        assert(final(out)@ =~= old(out)@ + spec_dec(n as nat));
    }
}

/// Appends the bytes of a string.
pub fn push_str_bytes(out: &mut Vec<u8>, s: &str)
    ensures
        final(out)@ == old(out)@ + s.spec_bytes(),
{
    out.extend_from_slice(s.as_bytes());
}

/// The bytes of a string, as a fresh buffer.
pub fn str_to_bytes(s: &str) -> (r: Vec<u8>)
    ensures
        r@ == s.spec_bytes(),
{
    let mut out: Vec<u8> = Vec::new();
    push_str_bytes(&mut out, s);
    out
}


/// The single-character escapes JSON allows after a backslash.
pub open spec fn is_escape_spec(b: u8) -> bool {
    b == 34 || b == 92 || b == 47 || b == 98 || b == 102 || b == 110 || b == 114 || b == 116
}

pub open spec fn is_hex_spec(b: u8) -> bool {
    (48 <= b <= 57) || (65 <= b <= 70) || (97 <= b <= 102)
}

fn is_escape(b: u8) -> (r: bool)
    ensures
        r == is_escape_spec(b),
{
    b == 34 || b == 92 || b == 47 || b == 98 || b == 102 || b == 110 || b == 114 || b == 116
}

fn is_hex(b: u8) -> (r: bool)
    ensures
        r == is_hex_spec(b),
{
    (48 <= b && b <= 57) || (65 <= b && b <= 70) || (97 <= b && b <= 102)
}

/// The rest of a JSON string after its opening quote: the index after
/// the closing quote, or nothing when the string is malformed.
pub open spec fn spec_jstr_rest(s: Seq<u8>, i: int) -> Option<int>
    decreases s.len() - i,
{
    if !(0 <= i < s.len()) {
        None
    } else if s[i] == 34 {
        Some(i + 1)
    } else if s[i] == 92 {
        if i + 1 < s.len() && is_escape_spec(s[i + 1]) {
            spec_jstr_rest(s, i + 2)
        } else if i + 1 < s.len() && s[i + 1] == 117 {
            if i + 6 <= s.len() && is_hex_spec(s[i + 2]) && is_hex_spec(s[i + 3]) && is_hex_spec(
                s[i + 4],
            ) && is_hex_spec(s[i + 5]) {
                spec_jstr_rest(s, i + 6)
            } else {
                None
            }
        } else {
            None
        }
    } else if s[i] >= 32 {
        spec_jstr_rest(s, i + 1)
    } else {
        None
    }
}

fn skip_string_rest(s: &Vec<u8>, i: usize) -> (r: Option<usize>)
    requires
        i <= s@.len(),
    ensures
        (match r {
            Some(j) => spec_jstr_rest(s@, i as int) == Some(j as int) && i < j <= s@.len(),
            None => spec_jstr_rest(s@, i as int) is None,
        }),
{
    let sn = s.len();
    let mut j = i;
    loop
        invariant
            i <= j <= sn,
            sn == s@.len(),
            spec_jstr_rest(s@, i as int) == spec_jstr_rest(s@, j as int),
        decreases s@.len() - j,
    {
        if j >= sn {
            return None;
        }
        let b = s[j];
        if b == 34 {
            return Some(j + 1);
        } else if b == 92 {
            if j + 1 < sn && is_escape(s[j + 1]) {
                j = j + 2;
            } else if j + 1 < sn && s[j + 1] == 117 {
                if sn - j >= 6 && is_hex(s[j + 2]) && is_hex(s[j + 3]) && is_hex(s[j + 4])
                    && is_hex(s[j + 5]) {
                    j = j + 6;
                } else {
                    return None;
                }
            } else {
                return None;
            }
        } else if b >= 32 {
            j = j + 1;
        } else {
            return None;
        }
    }
}

/// Advances past a digit run.
fn skip_digits(s: &Vec<u8>, i: usize) -> (r: usize)
    requires
        i <= s@.len(),
    ensures
        r as int == i + spec_digit_run(s@, i as int),
        i <= r <= s@.len(),
{
    let mut j = i;
    while j < s.len() && is_digit(s[j])
        invariant
            i <= j <= s@.len(),
            i + spec_digit_run(s@, i as int) == j + spec_digit_run(s@, j as int),
        decreases s@.len() - j,
    {
        j += 1;
    }
    j
}

/// The fraction part of a JSON number, if present.
pub open spec fn spec_num_frac_end(s: Seq<u8>, ii: int) -> Option<int> {
    if ii < s.len() && s[ii] == 46 {
        let f = spec_digit_run(s, ii + 1);
        if f < 1 {
            None
        } else {
            Some(ii + 1 + f)
        }
    } else {
        Some(ii)
    }
}

/// The exponent part of a JSON number, if present.
pub open spec fn spec_num_exp_end(s: Seq<u8>, jj: int) -> Option<int> {
    if jj < s.len() && (s[jj] == 101 || s[jj] == 69) {
        let j0 = if jj + 1 < s.len() && (s[jj + 1] == 43 || s[jj + 1] == 45) {
            jj + 2
        } else {
            jj + 1
        };
        let e = spec_digit_run(s, j0);
        if e < 1 {
            None
        } else {
            Some(j0 + e)
        }
    } else {
        Some(jj)
    }
}

/// A JSON number token starting at `i`: the index after it, or nothing
/// when it is malformed (a leading zero, a bare point, an empty
/// exponent).
pub open spec fn spec_num_end(s: Seq<u8>, i: int) -> Option<int> {
    if !(0 <= i < s.len()) {
        None
    } else {
        let i0 = if s[i] == 45 {
            i + 1
        } else {
            i
        };
        let n = spec_digit_run(s, i0);
        if n < 1 {
            None
        } else if s[i0] == 48 && n > 1 {
            None
        } else {
            match spec_num_frac_end(s, i0 + n) {
                None => None,
                Some(jj) => spec_num_exp_end(s, jj),
            }
        }
    }
}

fn skip_num(s: &Vec<u8>, i: usize) -> (r: Option<usize>)
    requires
        i <= s@.len(),
    ensures
        (match r {
            Some(j) => spec_num_end(s@, i as int) == Some(j as int) && i < j <= s@.len(),
            None => spec_num_end(s@, i as int) is None,
        }),
{
    let sn = s.len();
    if i >= sn {
        return None;
    }
    let i0 = if s[i] == 45 {
        i + 1
    } else {
        i
    };
    let ii = skip_digits(s, i0);
    if ii == i0 {
        return None;
    }
    proof {
        lemma_digit_run_bounds(s@, i0 as int);
    }
    if s[i0] == 48 && ii - i0 > 1 {
        return None;
    }
    let jj = if ii < sn && s[ii] == 46 {
        let fe = skip_digits(s, ii + 1);
        if fe == ii + 1 {
            return None;
        }
        fe
    } else {
        ii
    };
    if jj < sn && (s[jj] == 101 || s[jj] == 69) {
        let j0 = if jj + 1 < sn && (s[jj + 1] == 43 || s[jj + 1] == 45) {
            jj + 2
        } else {
            jj + 1
        };
        let ee = skip_digits(s, j0);
        if ee == j0 {
            return None;
        }
        Some(ee)
    } else {
        Some(jj)
    }
}

/// A JSON value starting exactly at `i`: the index after it. Containers
/// may nest at most `depth` levels, as wire parsers bound them; `gas`
/// bounds the recursion and is in surplus at every real call.
pub open spec fn spec_jv(s: Seq<u8>, i: int, depth: nat, gas: nat) -> Option<int>
    decreases gas,
{
    if gas == 0 {
        None
    } else if !(0 <= i < s.len()) {
        None
    } else if s[i] == 123 {
        if depth == 0 {
            None
        } else {
            spec_jmembers(s, i + 1, true, (depth - 1) as nat, (gas - 1) as nat)
        }
    } else if s[i] == 91 {
        if depth == 0 {
            None
        } else {
            spec_jelems(s, i + 1, true, (depth - 1) as nat, (gas - 1) as nat)
        }
    } else if s[i] == 34 {
        spec_jstr_rest(s, i + 1)
    } else if s[i] == 116 {
        if spec_match_at(s, i, "true".spec_bytes()) {
            Some(i + "true".spec_bytes().len())
        } else {
            None
        }
    } else if s[i] == 102 {
        if spec_match_at(s, i, "false".spec_bytes()) {
            Some(i + "false".spec_bytes().len())
        } else {
            None
        }
    } else if s[i] == 110 {
        if spec_match_at(s, i, "null".spec_bytes()) {
            Some(i + "null".spec_bytes().len())
        } else {
            None
        }
    } else if s[i] == 45 || is_digit_spec(s[i]) {
        spec_num_end(s, i)
    } else {
        None
    }
}

/// The members of a JSON object after its opening brace (or after a
/// comma when `first` is false): the index after the closing brace.
pub open spec fn spec_jmembers(s: Seq<u8>, i: int, first: bool, depth: nat, gas: nat) -> Option<
    int,
>
    decreases gas,
{
    if gas == 0 {
        None
    } else {
        let j = spec_skip_ws(s, i);
        if !(0 <= j < s.len()) {
            None
        } else if first && s[j] == 125 {
            Some(j + 1)
        } else if s[j] != 34 {
            None
        } else {
            match spec_jstr_rest(s, j + 1) {
                None => None,
                Some(ke) => {
                    let j2 = spec_skip_ws(s, ke);
                    if !(j2 < s.len() && s[j2] == 58) {
                        None
                    } else {
                        let j3 = spec_skip_ws(s, j2 + 1);
                        match spec_jv(s, j3, depth, (gas - 1) as nat) {
                            None => None,
                            Some(ve) => {
                                let j4 = spec_skip_ws(s, ve);
                                if j4 < s.len() && s[j4] == 125 {
                                    Some(j4 + 1)
                                } else if j4 < s.len() && s[j4] == 44 {
                                    spec_jmembers(s, j4 + 1, false, depth, (gas - 1) as nat)
                                } else {
                                    None
                                }
                            },
                        }
                    }
                },
            }
        }
    }
}

/// The elements of a JSON array after its opening bracket (or after a
/// comma when `first` is false): the index after the closing bracket.
pub open spec fn spec_jelems(s: Seq<u8>, i: int, first: bool, depth: nat, gas: nat) -> Option<int>
    decreases gas,
{
    if gas == 0 {
        None
    } else {
        let j = spec_skip_ws(s, i);
        if !(0 <= j < s.len()) {
            None
        } else if first && s[j] == 93 {
            Some(j + 1)
        } else {
            match spec_jv(s, j, depth, (gas - 1) as nat) {
                None => None,
                Some(ve) => {
                    let j4 = spec_skip_ws(s, ve);
                    if j4 < s.len() && s[j4] == 93 {
                        Some(j4 + 1)
                    } else if j4 < s.len() && s[j4] == 44 {
                        spec_jelems(s, j4 + 1, false, depth, (gas - 1) as nat)
                    } else {
                        None
                    }
                },
            }
        }
    }
}

fn skip_jv(s: &Vec<u8>, i: usize, depth: u32, Ghost(gas): Ghost<nat>) -> (r: Option<usize>)
    requires
        i <= s@.len(),
        gas >= 3 * (s@.len() - i) + 1,
    ensures
        (match r {
            Some(j) => spec_jv(s@, i as int, depth as nat, gas) == Some(j as int) && i <= j
                <= s@.len(),
            None => spec_jv(s@, i as int, depth as nat, gas) is None,
        }),
    decreases gas,
{
    let sn = s.len();
    if i >= sn {
        return None;
    }
    let b = s[i];
    if b == 123 {
        if depth == 0 {
            return None;
        }
        skip_jmembers(s, i + 1, depth - 1, Ghost((gas - 1) as nat))
    } else if b == 91 {
        if depth == 0 {
            return None;
        }
        skip_jelems(s, i + 1, depth - 1, Ghost((gas - 1) as nat))
    } else if b == 34 {
        skip_string_rest(s, i + 1)
    } else if b == 116 {
        let pn = "true".as_bytes().len();
        if match_lit(s, i, "true") {
            Some(i + pn)
        } else {
            None
        }
    } else if b == 102 {
        let pn = "false".as_bytes().len();
        if match_lit(s, i, "false") {
            Some(i + pn)
        } else {
            None
        }
    } else if b == 110 {
        let pn = "null".as_bytes().len();
        if match_lit(s, i, "null") {
            Some(i + pn)
        } else {
            None
        }
    } else if b == 45 || (48 <= b && b <= 57) {
        skip_num(s, i)
    } else {
        None
    }
}

fn skip_jmembers(s: &Vec<u8>, i: usize, depth: u32, Ghost(gas): Ghost<nat>) -> (r: Option<usize>)
    requires
        i <= s@.len(),
        gas >= 3 * (s@.len() - i) + 2,
    ensures
        (match r {
            Some(j) => spec_jmembers(s@, i as int, true, depth as nat, gas) == Some(j as int) && i
                < j <= s@.len(),
            None => spec_jmembers(s@, i as int, true, depth as nat, gas) is None,
        }),
    decreases gas,
{
    let sn = s.len();
    let mut j = i;
    let mut first = true;
    let ghost mut g = gas;
    loop
        invariant
            i <= j <= sn,
            sn == s@.len(),
            g >= 3 * (s@.len() - j) + 2,
            g <= gas,
            spec_jmembers(s@, i as int, true, depth as nat, gas) == spec_jmembers(
                s@,
                j as int,
                first,
                depth as nat,
                g,
            ),
        decreases g,
    {
        let jw = skip_ws(s, j);
        if jw >= sn {
            return None;
        }
        if first && s[jw] == 125 {
            return Some(jw + 1);
        }
        if s[jw] != 34 {
            return None;
        }
        let ke = match skip_string_rest(s, jw + 1) {
            Some(k) => k,
            None => {
                return None;
            },
        };
        let j2 = skip_ws(s, ke);
        if !(j2 < sn && s[j2] == 58) {
            return None;
        }
        let j3 = skip_ws(s, j2 + 1);
        let ve = match skip_jv(s, j3, depth, Ghost((g - 1) as nat)) {
            Some(v) => v,
            None => {
                return None;
            },
        };
        let j4 = skip_ws(s, ve);
        if j4 < sn && s[j4] == 125 {
            return Some(j4 + 1);
        }
        if j4 < sn && s[j4] == 44 {
            proof {
                g = (g - 1) as nat;
            }
            j = j4 + 1;
            first = false;
        } else {
            return None;
        }
    }
}

fn skip_jelems(s: &Vec<u8>, i: usize, depth: u32, Ghost(gas): Ghost<nat>) -> (r: Option<usize>)
    requires
        i <= s@.len(),
        gas >= 3 * (s@.len() - i) + 2,
    ensures
        (match r {
            Some(j) => spec_jelems(s@, i as int, true, depth as nat, gas) == Some(j as int) && i
                < j <= s@.len(),
            None => spec_jelems(s@, i as int, true, depth as nat, gas) is None,
        }),
    decreases gas,
{
    let sn = s.len();
    let mut j = i;
    let mut first = true;
    let ghost mut g = gas;
    loop
        invariant
            i <= j <= sn,
            sn == s@.len(),
            g >= 3 * (s@.len() - j) + 2,
            g <= gas,
            spec_jelems(s@, i as int, true, depth as nat, gas) == spec_jelems(
                s@,
                j as int,
                first,
                depth as nat,
                g,
            ),
        decreases g,
    {
        let jw = skip_ws(s, j);
        if jw >= sn {
            return None;
        }
        if first && s[jw] == 93 {
            return Some(jw + 1);
        }
        let ve = match skip_jv(s, jw, depth, Ghost((g - 1) as nat)) {
            Some(v) => v,
            None => {
                return None;
            },
        };
        let j4 = skip_ws(s, ve);
        if j4 < sn && s[j4] == 93 {
            return Some(j4 + 1);
        }
        if j4 < sn && s[j4] == 44 {
            proof {
                g = (g - 1) as nat;
            }
            j = j4 + 1;
            first = false;
        } else {
            return None;
        }
    }
}

/// Gas that is in surplus for a whole frame.
pub open spec fn spec_json_gas(s: Seq<u8>) -> nat {
    (3 * s.len() + 4) as nat
}

/// Whether the whole byte sequence is one valid JSON value, with
/// nothing but whitespace around it.
pub open spec fn spec_json_ok(s: Seq<u8>) -> bool {
    let i = spec_skip_ws(s, 0);
    match spec_jv(s, i, 128, spec_json_gas(s)) {
        Some(j) => spec_skip_ws(s, j) == s.len(),
        None => false,
    }
}

pub fn json_ok(s: &Vec<u8>) -> (r: bool)
    ensures
        r == spec_json_ok(s@),
{
    let i = skip_ws(s, 0);
    match skip_jv(s, i, 128, Ghost(spec_json_gas(s@))) {
        Some(j) => skip_ws(s, j) == s.len(),
        None => false,
    }
}

/// The value of the first member named `key` in the member list
/// starting at `i` (just after the object's opening brace): the index
/// where that value starts. Later members and unknown names are
/// ignored, as wire parsers ignore them.
pub open spec fn spec_find_field(s: Seq<u8>, i: int, key: Seq<u8>, gas: nat) -> Option<int>
    decreases gas,
{
    if gas == 0 {
        None
    } else {
        let j = spec_skip_ws(s, i);
        if !(0 <= j < s.len()) {
            None
        } else if s[j] != 34 {
            None
        } else {
            match spec_jstr_rest(s, j + 1) {
                None => None,
                Some(ke) => {
                    let j2 = spec_skip_ws(s, ke);
                    if !(j2 < s.len() && s[j2] == 58) {
                        None
                    } else {
                        let j3 = spec_skip_ws(s, j2 + 1);
                        if ke - 1 == j + 1 + key.len() && spec_match_at(s, j + 1, key) {
                            Some(j3)
                        } else {
                            match spec_jv(s, j3, 128, (gas - 1) as nat) {
                                None => None,
                                Some(ve) => {
                                    let j4 = spec_skip_ws(s, ve);
                                    if j4 < s.len() && s[j4] == 44 {
                                        spec_find_field(s, j4 + 1, key, (gas - 1) as nat)
                                    } else {
                                        None
                                    }
                                },
                            }
                        }
                    }
                },
            }
        }
    }
}

pub fn find_field(s: &Vec<u8>, i: usize, key: &str, Ghost(gas): Ghost<nat>) -> (r: Option<usize>)
    requires
        i <= s@.len(),
        gas >= 3 * (s@.len() - i) + 2,
    ensures
        (match r {
            Some(p) => spec_find_field(s@, i as int, key.spec_bytes(), gas) == Some(p as int) && p
                <= s@.len(),
            None => spec_find_field(s@, i as int, key.spec_bytes(), gas) is None,
        }),
{
    let sn = s.len();
    let kn = key.as_bytes().len();
    let mut j = i;
    let ghost mut g = gas;
    loop
        invariant
            i <= j <= sn,
            sn == s@.len(),
            kn == key.spec_bytes().len(),
            g >= 3 * (s@.len() - j) + 2,
            g <= gas,
            spec_find_field(s@, i as int, key.spec_bytes(), gas) == spec_find_field(
                s@,
                j as int,
                key.spec_bytes(),
                g,
            ),
        decreases g,
    {
        let jw = skip_ws(s, j);
        if jw >= sn {
            return None;
        }
        if s[jw] != 34 {
            return None;
        }
        let ke = match skip_string_rest(s, jw + 1) {
            Some(k) => k,
            None => {
                return None;
            },
        };
        let j2 = skip_ws(s, ke);
        if !(j2 < sn && s[j2] == 58) {
            return None;
        }
        let j3 = skip_ws(s, j2 + 1);
        if ke - 1 - (jw + 1) == kn && match_lit(s, jw + 1, key) {
            return Some(j3);
        }
        let ve = match skip_jv(s, j3, 128, Ghost((g - 1) as nat)) {
            Some(v) => v,
            None => {
                return None;
            },
        };
        let j4 = skip_ws(s, ve);
        if j4 < sn && s[j4] == 44 {
            proof {
                g = (g - 1) as nat;
            }
            j = j4 + 1;
        } else {
            return None;
        }
    }
}

/// The value of the first member named `key` of the frame's top-level
/// object, if the frame (after whitespace) is an object with such a
/// member.
pub open spec fn spec_top_field(s: Seq<u8>, key: Seq<u8>) -> Option<int> {
    let i = spec_skip_ws(s, 0);
    if 0 <= i < s.len() && s[i] == 123 {
        spec_find_field(s, i + 1, key, spec_json_gas(s))
    } else {
        None
    }
}

pub fn top_field(s: &Vec<u8>, key: &str) -> (r: Option<usize>)
    ensures
        (match r {
            Some(p) => spec_top_field(s@, key.spec_bytes()) == Some(p as int) && p <= s@.len(),
            None => spec_top_field(s@, key.spec_bytes()) is None,
        }),
{
    let i = skip_ws(s, 0);
    if i < s.len() && s[i] == 123 {
        find_field(s, i + 1, key, Ghost(spec_json_gas(s@)))
    } else {
        None
    }
}

/// An unsigned integer token: a digit run that is not continued by a
/// point or an exponent, read as a `u32`.
pub open spec fn spec_u32_token(s: Seq<u8>, i: int) -> Option<u32> {
    match spec_parse_u32(s, i) {
        Some((v, e)) => if e < s.len() && (s[e] == 46 || s[e] == 101 || s[e] == 69) {
            None
        } else {
            Some(v)
        },
        None => None,
    }
}

pub fn u32_token(s: &Vec<u8>, i: usize) -> (r: Option<u32>)
    requires
        i <= s@.len(),
    ensures
        r == spec_u32_token(s@, i as int),
{
    match parse_u32(s, i) {
        Some((v, e)) => if e < s.len() && (s[e] == 46 || s[e] == 101 || s[e] == 69) {
            None
        } else {
            Some(v)
        },
        None => None,
    }
}

/// Exactly three fraction digits of a value below one thousand.
pub open spec fn spec_frac3(m: int) -> Seq<u8> {
    seq![(48 + m / 100) as u8, (48 + (m / 10) % 10) as u8, (48 + m % 10) as u8]
}

/// A coordinate on the wire: the engine's integer value rendered as
/// units of one thousand with exactly three fraction digits.
pub open spec fn spec_coord_dec(v: int) -> Seq<u8> {
    let a = if v < 0 {
        -v
    } else {
        v
    };
    (if v < 0 {
        seq![45u8]
    } else {
        Seq::<u8>::empty()
    }) + spec_dec((a / 1000) as nat) + seq![46u8] + spec_frac3(a % 1000)
}

/// Appends the wire rendering of a coordinate.
pub fn push_coord_dec(out: &mut Vec<u8>, v: i32)
    ensures
        final(out)@ == old(out)@ + spec_coord_dec(v as int),
{
    let a: u32 = if v < 0 {
        out.push(45);
        (-(v as i64)) as u32
    } else {
        v as u32
    };
    push_dec_u32(out, a / 1000);
    out.push(46);
    let m = a % 1000;
    out.push(48 + (m / 100) as u8);
    out.push(48 + ((m / 10) % 10) as u8);
    out.push(48 + (m % 10) as u8);
    proof {
        assert(final(out)@ =~= old(out)@ + spec_coord_dec(v as int));
    }
}

} // verus!
