//! Exact parsing of `<number> <unit>` sizes and `<number> <unit>/s` rates.
//!
//! A number is a decimal digit run, optionally followed by `.` and a second
//! digit run. The unit ladder is B, KiB, MiB, GiB, TiB, each step a factor of
//! 1024. A size is the value in bytes truncated to an integer; a rate keeps
//! its fractional part exactly, as a decimal mantissa and scale. A number
//! whose digit count exceeds 19 is treated as malformed and yields no value.

use vstd::prelude::*;

use crate::scan::CharClass;
use crate::scan::class_pred;
use crate::scan::digits_val;
use crate::scan::first_where;
use crate::scan::lemma_digits_val_bound;
use crate::scan::lemma_first_where_eq_none;
use crate::scan::lemma_first_where_eq_some;
use crate::scan::lemma_run_end;
use crate::scan::parse_u64_digits;
use crate::scan::pow10;
use crate::scan::run_end;
use crate::scan::scan_run;
use crate::scan::to_chars;

verus! {

/// An exact non-negative decimal number: `mantissa / 10^scale`.
///
/// Values produced by this crate are normalized: either the scale is zero or
/// the mantissa is not divisible by ten.
#[derive(Clone, Copy, Debug, PartialEq, Eq, Structural)]
pub struct Rate {
    pub mantissa: u128,
    pub scale: u32,
}

impl Rate {
    /// Normal form: no trailing decimal zero is kept.
    pub open spec fn wf(self) -> bool {
        self.scale == 0 || self.mantissa % 10 != 0
    }
}

/// 1024 raised to `n`.
pub open spec fn p1024(n: nat) -> nat
    decreases n,
{
    if n == 0 {
        1
    } else {
        1024 * p1024((n - 1) as nat)
    }
}

pub open spec fn digit_run_end(s: Seq<char>, i: int) -> int {
    run_end(s, class_pred(CharClass::Digit), i)
}

pub open spec fn space_run_end(s: Seq<char>, i: int) -> int {
    run_end(s, class_pred(CharClass::Space), i)
}

/// End of the number matched at `i`: the first digit run, extended over
/// `.` and a second digit run when both are present.
pub open spec fn num_end(s: Seq<char>, i: int) -> int {
    let e1 = digit_run_end(s, i);
    if e1 < s.len() && s[e1] == '.' && digit_run_end(s, e1 + 1) > e1 + 1 {
        digit_run_end(s, e1 + 1)
    } else {
        e1
    }
}

/// Number of fractional digits of the number matched at `i`.
pub open spec fn num_frac_len(s: Seq<char>, i: int) -> int {
    let e1 = digit_run_end(s, i);
    if e1 < s.len() && s[e1] == '.' && digit_run_end(s, e1 + 1) > e1 + 1 {
        digit_run_end(s, e1 + 1) - (e1 + 1)
    } else {
        0
    }
}

/// Total digit count of the number matched at `i` (the dot excluded).
pub open spec fn num_digit_count(s: Seq<char>, i: int) -> int {
    (digit_run_end(s, i) - i) + num_frac_len(s, i)
}

/// All digits of the number matched at `i`, read as one integer.
pub open spec fn num_val(s: Seq<char>, i: int) -> nat {
    let e1 = digit_run_end(s, i);
    if e1 < s.len() && s[e1] == '.' && digit_run_end(s, e1 + 1) > e1 + 1 {
        digits_val(s, i, e1) * pow10(num_frac_len(s, i) as nat) + digits_val(
            s,
            e1 + 1,
            digit_run_end(s, e1 + 1),
        )
    } else {
        digits_val(s, i, e1)
    }
}

/// Size unit at `w`: exponent of 1024, with `KiB` preferred over `B`.
pub open spec fn size_unit_exp(s: Seq<char>, w: int) -> Option<nat> {
    if w + 3 <= s.len() && (s[w] == 'K' || s[w] == 'M' || s[w] == 'G' || s[w] == 'T') && s[w + 1]
        == 'i' && s[w + 2] == 'B' {
        if s[w] == 'K' {
            Some(1)
        } else if s[w] == 'M' {
            Some(2)
        } else if s[w] == 'G' {
            Some(3)
        } else {
            Some(4)
        }
    } else if w < s.len() && s[w] == 'B' {
        Some(0)
    } else {
        None
    }
}

/// Rate unit at `w`: as the size unit, with a `/s` suffix.
pub open spec fn rate_unit_exp(s: Seq<char>, w: int) -> Option<nat> {
    if w + 5 <= s.len() && (s[w] == 'K' || s[w] == 'M' || s[w] == 'G' || s[w] == 'T') && s[w + 1]
        == 'i' && s[w + 2] == 'B' && s[w + 3] == '/' && s[w + 4] == 's' {
        if s[w] == 'K' {
            Some(1)
        } else if s[w] == 'M' {
            Some(2)
        } else if s[w] == 'G' {
            Some(3)
        } else {
            Some(4)
        }
    } else if w + 3 <= s.len() && s[w] == 'B' && s[w + 1] == '/' && s[w + 2] == 's' {
        Some(0)
    } else {
        None
    }
}

/// A size (`<number> <unit>`) is matched at `i`.
pub open spec fn size_pred(s: Seq<char>, i: int) -> bool {
    digit_run_end(s, i) > i && size_unit_exp(s, space_run_end(s, num_end(s, i))) is Some
}

pub open spec fn size_match_pred() -> spec_fn(Seq<char>, int) -> bool {
    |s: Seq<char>, i: int| size_pred(s, i)
}

/// A rate (`<number> <unit>/s`) is matched at `i`.
pub open spec fn rate_pred(s: Seq<char>, i: int) -> bool {
    digit_run_end(s, i) > i && rate_unit_exp(s, space_run_end(s, num_end(s, i))) is Some
}

pub open spec fn rate_match_pred() -> spec_fn(Seq<char>, int) -> bool {
    |s: Seq<char>, i: int| rate_pred(s, i)
}

/// Bytes denoted by the size matched at `i`, truncated to an integer;
/// `None` when the number is over 19 digits or the result exceeds `u64`.
pub open spec fn size_value_at(s: Seq<char>, i: int) -> Option<u64> {
    match size_unit_exp(s, space_run_end(s, num_end(s, i))) {
        Some(n) => {
            if num_digit_count(s, i) > 19 {
                None
            } else {
                let v = (num_val(s, i) * p1024(n)) / pow10(num_frac_len(s, i) as nat);
                if v > u64::MAX {
                    None
                } else {
                    Some(v as u64)
                }
            }
        },
        None => None,
    }
}

/// Normalization: strip factors of ten from the mantissa into the scale.
pub open spec fn norm_rate(m: nat, sc: nat) -> (nat, nat)
    decreases sc,
{
    if sc == 0 || m % 10 != 0 {
        (m, sc)
    } else {
        norm_rate(m / 10, (sc - 1) as nat)
    }
}

/// Bytes per second denoted by the rate matched at `i`, exactly; `None`
/// when the number is over 19 digits.
pub open spec fn rate_value_at(s: Seq<char>, i: int) -> Option<Rate> {
    match rate_unit_exp(s, space_run_end(s, num_end(s, i))) {
        Some(n) => {
            if num_digit_count(s, i) > 19 {
                None
            } else {
                let nm = norm_rate(num_val(s, i) * p1024(n), num_frac_len(s, i) as nat);
                Some(Rate { mantissa: nm.0 as u128, scale: nm.1 as u32 })
            }
        },
        None => None,
    }
}

/// The first size match anywhere in `s`, parsed.
pub open spec fn size_parse_spec(s: Seq<char>) -> Option<u64> {
    match first_where(s, size_match_pred(), 0) {
        Some(i) => size_value_at(s, i),
        None => None,
    }
}

/// The first rate match anywhere in `s`, parsed.
pub open spec fn rate_parse_spec(s: Seq<char>) -> Option<Rate> {
    match first_where(s, rate_match_pred(), 0) {
        Some(i) => rate_value_at(s, i),
        None => None,
    }
}

pub proof fn lemma_pow10_pos(n: nat)
    ensures
        pow10(n) >= 1,
    decreases n,
{
    if n > 0 {
        lemma_pow10_pos((n - 1) as nat);
    }
}

pub proof fn lemma_pow10_mono(a: nat, b: nat)
    requires
        a <= b,
    ensures
        pow10(a) <= pow10(b),
    decreases b,
{
    if a < b {
        lemma_pow10_mono(a, (b - 1) as nat);
        lemma_pow10_pos((b - 1) as nat);
    }
}

pub proof fn lemma_pow10_adds(a: nat, b: nat)
    ensures
        pow10(a + b) == pow10(a) * pow10(b),
    decreases a,
{
    if a > 0 {
        lemma_pow10_adds((a - 1) as nat, b);
        let p = pow10((a - 1) as nat);
        let q = pow10(b);
        assert(10 * (p * q) == (10 * p) * q) by (nonlinear_arith);
        assert((a - 1) as nat + b == (a + b - 1) as nat);
        assert(pow10(a + b) == 10 * pow10((a + b - 1) as nat));
        assert(pow10(a) == 10 * p);
        assert(pow10(a + b) == pow10(a) * pow10(b));
    } else {
        assert(a == 0);
        assert(pow10(0) == 1);
        assert(1 * pow10(b) == pow10(b)) by (nonlinear_arith);
        assert(pow10(a + b) == pow10(a) * pow10(b));
    }
}

pub proof fn lemma_pow10_19()
    ensures
        pow10(18) == 1000000000000000000,
        pow10(19) == 10000000000000000000,
{
    reveal_with_fuel(pow10, 21);
}

pub proof fn lemma_p1024_4()
    ensures
        p1024(0) == 1,
        p1024(1) == 1024,
        p1024(2) == 1048576,
        p1024(3) == 1073741824,
        p1024(4) == 1099511627776,
{
    reveal_with_fuel(p1024, 6);
}

pub proof fn lemma_p1024_le(n: nat)
    requires
        n <= 4,
    ensures
        1 <= p1024(n) <= 1099511627776,
{
    lemma_p1024_4();
    reveal_with_fuel(p1024, 6);
    assert(n == 0 || n == 1 || n == 2 || n == 3 || n == 4);
}

pub proof fn lemma_norm_rate_le(m: nat, sc: nat)
    ensures
        norm_rate(m, sc).0 <= m,
        norm_rate(m, sc).1 <= sc,
        norm_rate(m, sc).1 == 0 || norm_rate(m, sc).0 % 10 != 0,
    decreases sc,
{
    if !(sc == 0 || m % 10 != 0) {
        lemma_norm_rate_le(m / 10, (sc - 1) as nat);
    }
}

pub fn pow10_u128(e: usize) -> (r: u128)
    requires
        e <= 19,
    ensures
        r == pow10(e as nat),
{
    let mut acc: u128 = 1;
    let mut k: usize = 0;
    while k < e
        invariant
            0 <= k <= e <= 19,
            acc == pow10(k as nat),
        decreases e - k,
    {
        proof {
            lemma_pow10_mono(k as nat, 18);
            lemma_pow10_19();
        }
        acc = acc * 10;
        k += 1;
    }
    acc
}

pub fn p1024_u128(n: u64) -> (r: u128)
    requires
        n <= 4,
    ensures
        r == p1024(n as nat),
{
    proof {
        lemma_p1024_4();
    }
    if n == 0 {
        1
    } else if n == 1 {
        1024
    } else if n == 2 {
        1048576
    } else if n == 3 {
        1073741824
    } else {
        1099511627776
    }
}

fn size_unit_at(s: &Vec<char>, w: usize) -> (r: Option<u64>)
    requires
        w <= s@.len(),
    ensures
        match r {
            Some(n) => size_unit_exp(s@, w as int) == Some(n as nat) && n <= 4,
            None => size_unit_exp(s@, w as int) is None,
        },
{
    let rem = s.len() - w;
    if rem >= 3 && (s[w] == 'K' || s[w] == 'M' || s[w] == 'G' || s[w] == 'T') && s[w + 1] == 'i'
        && s[w + 2] == 'B' {
        if s[w] == 'K' {
            Some(1)
        } else if s[w] == 'M' {
            Some(2)
        } else if s[w] == 'G' {
            Some(3)
        } else {
            Some(4)
        }
    } else if rem >= 1 && s[w] == 'B' {
        Some(0)
    } else {
        None
    }
}

fn rate_unit_at(s: &Vec<char>, w: usize) -> (r: Option<u64>)
    requires
        w <= s@.len(),
    ensures
        match r {
            Some(n) => rate_unit_exp(s@, w as int) == Some(n as nat) && n <= 4,
            None => rate_unit_exp(s@, w as int) is None,
        },
{
    let rem = s.len() - w;
    if rem >= 5 && (s[w] == 'K' || s[w] == 'M' || s[w] == 'G' || s[w] == 'T') && s[w + 1] == 'i'
        && s[w + 2] == 'B' && s[w + 3] == '/' && s[w + 4] == 's' {
        if s[w] == 'K' {
            Some(1)
        } else if s[w] == 'M' {
            Some(2)
        } else if s[w] == 'G' {
            Some(3)
        } else {
            Some(4)
        }
    } else if rem >= 3 && s[w] == 'B' && s[w + 1] == '/' && s[w + 2] == 's' {
        Some(0)
    } else {
        None
    }
}

/// End of the number at `i`, with the end of its integer digit run.
fn num_end_exec(s: &Vec<char>, i: usize) -> (r: (usize, usize))
    requires
        i <= s@.len(),
    ensures
        r.0 == digit_run_end(s@, i as int),
        r.1 == num_end(s@, i as int),
        i <= r.0 <= r.1 <= s@.len(),
{
    proof {
        lemma_run_end(s@, class_pred(CharClass::Digit), i as int);
    }
    let e1 = scan_run(s, CharClass::Digit, i);
    if e1 < s.len() && s[e1] == '.' {
        let e2 = scan_run(s, CharClass::Digit, e1 + 1);
        if e2 > e1 + 1 {
            (e1, e2)
        } else {
            (e1, e1)
        }
    } else {
        (e1, e1)
    }
}

fn size_pred_at(s: &Vec<char>, i: usize) -> (b: bool)
    requires
        i <= s@.len(),
    ensures
        b == size_pred(s@, i as int),
{
    let (e1, ne) = num_end_exec(s, i);
    if e1 == i {
        return false;
    }
    let w = scan_run(s, CharClass::Space, ne);
    size_unit_at(s, w).is_some()
}

fn rate_pred_at(s: &Vec<char>, i: usize) -> (b: bool)
    requires
        i <= s@.len(),
    ensures
        b == rate_pred(s@, i as int),
{
    let (e1, ne) = num_end_exec(s, i);
    if e1 == i {
        return false;
    }
    let w = scan_run(s, CharClass::Space, ne);
    rate_unit_at(s, w).is_some()
}

/// The number matched at `i`: all its digits as one integer, its count of
/// fractional digits, and its end. `None` when it is over 19 digits long.
fn parse_number_at(s: &Vec<char>, i: usize) -> (r: Option<(u128, usize, usize)>)
    requires
        i <= s@.len(),
        digit_run_end(s@, i as int) > i,
    ensures
        match r {
            Some(t) => t.0 == num_val(s@, i as int) && t.1 == num_frac_len(s@, i as int) && t.2
                == num_end(s@, i as int) && num_digit_count(s@, i as int) <= 19 && t.0 < pow10(19)
                && t.1 <= 19,
            None => num_digit_count(s@, i as int) > 19,
        },
{
    proof {
        lemma_run_end(s@, class_pred(CharClass::Digit), i as int);
    }
    let (e1, ne) = num_end_exec(s, i);
    let frac = ne > e1;
    let d1 = e1 - i;
    let f = if frac {
        ne - (e1 + 1)
    } else {
        0
    };
    if d1 > 19 || f > 19 || d1 + f > 19 {
        return None;
    }
    proof {
        lemma_digits_val_bound(s@, i as int, e1 as int);
        lemma_pow10_mono(d1 as nat, 19);
        lemma_pow10_19();
    }
    let m1 = match parse_u64_digits(s, i, e1) {
        Some(v) => v,
        None => {
            proof {
                assert(false);
            }
            return None;
        },
    };
    if frac {
        proof {
            lemma_run_end(s@, class_pred(CharClass::Digit), e1 as int + 1);
            lemma_digits_val_bound(s@, e1 as int + 1, ne as int);
            lemma_pow10_mono(f as nat, 19);
        }
        let m2 = match parse_u64_digits(s, e1 + 1, ne) {
            Some(v) => v,
            None => {
                proof {
                    assert(false);
                }
                return None;
            },
        };
        let pf = pow10_u128(f);
        proof {
            let a = m1 as nat;
            let b = m2 as nat;
            lemma_pow10_pos(f as nat);
            lemma_pow10_adds(d1 as nat, f as nat);
            assert(a * pow10(f as nat) + b < pow10(d1 as nat) * pow10(f as nat))
                by (nonlinear_arith)
                requires
                    a < pow10(d1 as nat),
                    b < pow10(f as nat),
                    pow10(f as nat) >= 1;
            lemma_pow10_mono((d1 + f) as nat, 19);
        }
        let m: u128 = m1 as u128 * pf + m2 as u128;
        Some((m, f, ne))
    } else {
        Some((m1 as u128, 0, ne))
    }
}

fn size_value_exec(s: &Vec<char>, i: usize) -> (r: Option<u64>)
    requires
        i <= s@.len(),
        size_pred(s@, i as int),
    ensures
        r == size_value_at(s@, i as int),
{
    match parse_number_at(s, i) {
        None => None,
        Some((m, f, ne)) => {
            let w = scan_run(s, CharClass::Space, ne);
            let n = match size_unit_at(s, w) {
                Some(n) => n,
                None => {
                    proof {
                        assert(false);
                    }
                    return None;
                },
            };
            let p = p1024_u128(n);
            proof {
                lemma_pow10_19();
                lemma_p1024_le(n as nat);
                assert((m as nat) * (p as nat) < 10000000000000000000 * 1099511627776)
                    by (nonlinear_arith)
                    requires
                        (m as nat) < 10000000000000000000,
                        1 <= (p as nat) <= 1099511627776;
                lemma_pow10_pos(f as nat);
            }
            let num: u128 = m * p;
            let pf = pow10_u128(f);
            let v = num / pf;
            if v > u64::MAX as u128 {
                None
            } else {
                Some(v as u64)
            }
        },
    }
}

fn rate_value_exec(s: &Vec<char>, i: usize) -> (r: Option<Rate>)
    requires
        i <= s@.len(),
        rate_pred(s@, i as int),
    ensures
        r == rate_value_at(s@, i as int),
        r matches Some(rt) ==> rt.wf(),
{
    match parse_number_at(s, i) {
        None => None,
        Some((m, f, ne)) => {
            let w = scan_run(s, CharClass::Space, ne);
            let n = match rate_unit_at(s, w) {
                Some(n) => n,
                None => {
                    proof {
                        assert(false);
                    }
                    return None;
                },
            };
            let p = p1024_u128(n);
            proof {
                lemma_pow10_19();
                lemma_p1024_le(n as nat);
                assert((m as nat) * (p as nat) < 10000000000000000000 * 1099511627776)
                    by (nonlinear_arith)
                    requires
                        (m as nat) < 10000000000000000000,
                        1 <= (p as nat) <= 1099511627776;
            }
            let num: u128 = m * p;
            let mut nm: u128 = num;
            let mut nsc: usize = f;
            while nsc > 0 && nm % 10 == 0
                invariant
                    nsc <= 19,
                    norm_rate(num as nat, f as nat) == norm_rate(nm as nat, nsc as nat),
                decreases nsc,
            {
                nm = nm / 10;
                nsc -= 1;
            }
            Some(Rate { mantissa: nm, scale: nsc as u32 })
        },
    }
}

/// The first size match in `s`, parsed to whole bytes.
pub fn parse_size_chars(s: &Vec<char>) -> (r: Option<u64>)
    ensures
        r == size_parse_spec(s@),
{
    let mut idx: usize = 0;
    while idx < s.len()
        invariant
            0 <= idx <= s@.len(),
            forall|k: int| 0 <= k < idx ==> !size_pred(s@, k),
        decreases s@.len() - idx,
    {
        if size_pred_at(s, idx) {
            proof {
                lemma_first_where_eq_some(s@, size_match_pred(), 0, idx as int);
            }
            return size_value_exec(s, idx);
        }
        idx += 1;
    }
    proof {
        lemma_first_where_eq_none(s@, size_match_pred(), 0);
    }
    None
}

/// The first rate match in `s`, parsed to exact bytes per second.
pub fn parse_rate_chars(s: &Vec<char>) -> (r: Option<Rate>)
    ensures
        r == rate_parse_spec(s@),
        r matches Some(rt) ==> rt.wf(),
{
    let mut idx: usize = 0;
    while idx < s.len()
        invariant
            0 <= idx <= s@.len(),
            forall|k: int| 0 <= k < idx ==> !rate_pred(s@, k),
        decreases s@.len() - idx,
    {
        if rate_pred_at(s, idx) {
            proof {
                lemma_first_where_eq_some(s@, rate_match_pred(), 0, idx as int);
            }
            return rate_value_exec(s, idx);
        }
        idx += 1;
    }
    proof {
        lemma_first_where_eq_none(s@, rate_match_pred(), 0);
    }
    None
}

/// Parses a size such as `1.23 GiB` or `500 MiB` into whole bytes: the
/// first size match anywhere in the text, truncated to an integer.
pub fn parse_data_size(text: &str) -> (r: Option<u64>)
    ensures
        r == size_parse_spec(text@),
{
    let s = to_chars(text);
    parse_size_chars(&s)
}

/// Parses a rate such as `100.5 KiB/s` into exact bytes per second: the
/// first rate match anywhere in the text.
pub fn parse_data_rate(text: &str) -> (r: Option<Rate>)
    ensures
        r == rate_parse_spec(text@),
        r matches Some(rt) ==> rt.wf(),
{
    let s = to_chars(text);
    parse_rate_chars(&s)
}

/// The unit ladder, proved at the level of the grammar itself: for every
/// supported unit, the text `1 <unit>` denotes exactly that unit's byte
/// value, and a fractional count such as `1.5 MiB` is truncated to whole
/// bytes.
#[verifier::rlimit(50)]
pub proof fn lemma_size_parse_units()
    ensures
        size_parse_spec(seq!['1', ' ', 'B']) == Some(1u64),
        size_parse_spec(seq!['1', ' ', 'K', 'i', 'B']) == Some(1024u64),
        size_parse_spec(seq!['1', ' ', 'M', 'i', 'B']) == Some(1048576u64),
        size_parse_spec(seq!['1', ' ', 'G', 'i', 'B']) == Some(1073741824u64),
        size_parse_spec(seq!['1', ' ', 'T', 'i', 'B']) == Some(1099511627776u64),
        size_parse_spec(seq!['1', '.', '5', ' ', 'M', 'i', 'B']) == Some(1572864u64),
{
    reveal_with_fuel(crate::scan::run_end, 5);
    reveal_with_fuel(crate::scan::first_where, 2);
    reveal_with_fuel(crate::scan::digits_val, 3);
    reveal_with_fuel(crate::scan::pow10, 3);
    reveal_with_fuel(p1024, 6);
    lemma_p1024_4();
    lemma_pow10_19();
    let b = seq!['1', ' ', 'B'];
    assert(digit_run_end(b, 0) == 1 && num_end(b, 0) == 1 && space_run_end(b, 1) == 2);
    assert(size_unit_exp(b, 2) == Some(0nat));
    assert(size_pred(b, 0));
    assert(first_where(b, size_match_pred(), 0) == Some(0int));
    assert(num_val(b, 0) == 1 && num_frac_len(b, 0) == 0 && num_digit_count(b, 0) == 1);
    assert(num_val(b, 0) * p1024(0) == 1 && pow10(0) == 1);
    assert(size_value_at(b, 0) == Some(1u64));
    let k = seq!['1', ' ', 'K', 'i', 'B'];
    assert(digit_run_end(k, 0) == 1 && num_end(k, 0) == 1 && space_run_end(k, 1) == 2);
    assert(size_unit_exp(k, 2) == Some(1nat));
    assert(size_pred(k, 0));
    assert(first_where(k, size_match_pred(), 0) == Some(0int));
    assert(num_val(k, 0) == 1 && num_frac_len(k, 0) == 0 && num_digit_count(k, 0) == 1);
    assert(num_val(k, 0) * p1024(1) == 1024);
    assert(size_value_at(k, 0) == Some(1024u64));
    let m = seq!['1', ' ', 'M', 'i', 'B'];
    assert(digit_run_end(m, 0) == 1 && num_end(m, 0) == 1 && space_run_end(m, 1) == 2);
    assert(size_unit_exp(m, 2) == Some(2nat));
    assert(size_pred(m, 0));
    assert(first_where(m, size_match_pred(), 0) == Some(0int));
    assert(num_val(m, 0) == 1 && num_frac_len(m, 0) == 0 && num_digit_count(m, 0) == 1);
    assert(num_val(m, 0) * p1024(2) == 1048576);
    assert(size_value_at(m, 0) == Some(1048576u64));
    let g = seq!['1', ' ', 'G', 'i', 'B'];
    assert(digit_run_end(g, 0) == 1 && num_end(g, 0) == 1 && space_run_end(g, 1) == 2);
    assert(size_unit_exp(g, 2) == Some(3nat));
    assert(size_pred(g, 0));
    assert(first_where(g, size_match_pred(), 0) == Some(0int));
    assert(num_val(g, 0) == 1 && num_frac_len(g, 0) == 0 && num_digit_count(g, 0) == 1);
    assert(num_val(g, 0) * p1024(3) == 1073741824);
    assert(size_value_at(g, 0) == Some(1073741824u64));
    let t = seq!['1', ' ', 'T', 'i', 'B'];
    assert(digit_run_end(t, 0) == 1 && num_end(t, 0) == 1 && space_run_end(t, 1) == 2);
    assert(size_unit_exp(t, 2) == Some(4nat));
    assert(size_pred(t, 0));
    assert(first_where(t, size_match_pred(), 0) == Some(0int));
    assert(num_val(t, 0) == 1 && num_frac_len(t, 0) == 0 && num_digit_count(t, 0) == 1);
    assert(num_val(t, 0) * p1024(4) == 1099511627776);
    assert(size_value_at(t, 0) == Some(1099511627776u64));
    let h = seq!['1', '.', '5', ' ', 'M', 'i', 'B'];
    assert(digit_run_end(h, 0) == 1 && digit_run_end(h, 2) == 3);
    assert(num_end(h, 0) == 3 && num_frac_len(h, 0) == 1 && space_run_end(h, 3) == 4);
    assert(size_unit_exp(h, 4) == Some(2nat));
    assert(size_pred(h, 0));
    assert(first_where(h, size_match_pred(), 0) == Some(0int));
    assert(crate::scan::digits_val(h, 0, 1) == 1);
    assert(crate::scan::digits_val(h, 2, 3) == 5);
    assert(pow10(1) == 10);
    assert(num_val(h, 0) == 1 * 10 + 5);
    assert(num_digit_count(h, 0) == 2);
    assert(num_val(h, 0) * p1024(2) == 15728640);
    assert(pow10(1) == 10);
    assert((15728640nat) / 10 == 1572864);
    assert(size_value_at(h, 0) == Some(1572864u64));
}

} // verus!
