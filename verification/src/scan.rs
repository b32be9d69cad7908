//! Character-level scanning primitives.
//!
//! Every extractor in this crate is built from the same small toolkit:
//! matching a literal at a position, finding the first position where a
//! pattern holds, taking a maximal run of characters from one class, and
//! reading decimal digit runs. The spec functions here are the mathematical
//! definitions; the executable functions are proved to compute them.

use vstd::prelude::*;
use vstd::std_specs::iter::IteratorSpec;
use vstd::string::*;

verus! {

/// Decimal digit.
pub open spec fn spec_is_digit(c: char) -> bool {
    '0' <= c && c <= '9'
}

/// Capability-code characters: ASCII alphanumerics plus `~`.
pub open spec fn spec_is_cap(c: char) -> bool {
    ('A' <= c && c <= 'Z') || ('a' <= c && c <= 'z') || spec_is_digit(c) || c == '~'
}

/// ASCII whitespace.
pub open spec fn spec_is_space(c: char) -> bool {
    c == ' ' || c == '\t' || c == '\n' || c == '\r' || c == '\u{b}' || c == '\u{c}'
}

/// The pattern `pat` occurs in `s` starting at position `i`.
pub open spec fn match_at(s: Seq<char>, pat: Seq<char>, i: int) -> bool {
    &&& 0 <= i
    &&& i + pat.len() <= s.len()
    &&& forall|k: int| 0 <= k < pat.len() ==> s[i + k] == pat[k]
}

/// The first position at or after `i` where `p` holds, if any.
pub open spec fn first_where(s: Seq<char>, p: spec_fn(Seq<char>, int) -> bool, i: int) -> Option<
    int,
>
    decreases s.len() - i,
{
    if i < 0 || i >= s.len() {
        None
    } else if p(s, i) {
        Some(i)
    } else {
        first_where(s, p, i + 1)
    }
}

/// `first_where` returns the least matching position, or `None` when no
/// position matches.
pub proof fn lemma_first_where(s: Seq<char>, p: spec_fn(Seq<char>, int) -> bool, i: int)
    requires
        0 <= i,
    ensures
        match first_where(s, p, i) {
            Some(j) => i <= j < s.len() && p(s, j) && (forall|k: int| i <= k < j ==> !#[trigger] p(s, k)),
            None => forall|k: int| i <= k < s.len() ==> !#[trigger] p(s, k),
        },
    decreases s.len() - i,
{
    if i >= s.len() {
    } else if p(s, i) {
    } else {
        lemma_first_where(s, p, i + 1);
    }
}

/// A position that matches, below which none matches, is the first match.
pub proof fn lemma_first_where_eq_some(
    s: Seq<char>,
    p: spec_fn(Seq<char>, int) -> bool,
    i: int,
    j: int,
)
    requires
        0 <= i <= j < s.len(),
        p(s, j),
        forall|k: int| i <= k < j ==> !#[trigger] p(s, k),
    ensures
        first_where(s, p, i) == Some(j),
{
    lemma_first_where(s, p, i);
}

/// If no position at or after `i` matches, `first_where` is `None`.
pub proof fn lemma_first_where_eq_none(s: Seq<char>, p: spec_fn(Seq<char>, int) -> bool, i: int)
    requires
        0 <= i,
        forall|k: int| i <= k < s.len() ==> !#[trigger] p(s, k),
    ensures
        first_where(s, p, i) is None,
{
    lemma_first_where(s, p, i);
}

/// End of the maximal run of characters satisfying `p` that starts at `i`.
pub open spec fn run_end(s: Seq<char>, p: spec_fn(char) -> bool, i: int) -> int
    decreases s.len() - i,
{
    if i < 0 || i >= s.len() {
        i
    } else if p(s[i]) {
        run_end(s, p, i + 1)
    } else {
        i
    }
}

pub proof fn lemma_run_end(s: Seq<char>, p: spec_fn(char) -> bool, i: int)
    requires
        0 <= i <= s.len(),
    ensures
        i <= run_end(s, p, i) <= s.len(),
        forall|k: int| i <= k < run_end(s, p, i) ==> #[trigger] p(s[k]),
        run_end(s, p, i) < s.len() ==> !p(s[run_end(s, p, i)]),
    decreases s.len() - i,
{
    if i < s.len() && p(s[i]) {
        lemma_run_end(s, p, i + 1);
    }
}

/// The character classes the extractors take maximal runs of.
#[derive(Clone, Copy)]
pub enum CharClass {
    Digit,
    NonLt,
    Cap,
    Space,
}

pub open spec fn class_pred(cl: CharClass) -> spec_fn(char) -> bool {
    match cl {
        CharClass::Digit => |c: char| spec_is_digit(c),
        CharClass::NonLt => |c: char| c != '<',
        CharClass::Cap => |c: char| spec_is_cap(c),
        CharClass::Space => |c: char| spec_is_space(c),
    }
}

pub fn class_check(cl: CharClass, c: char) -> (b: bool)
    ensures
        b == class_pred(cl)(c),
{
    match cl {
        CharClass::Digit => '0' <= c && c <= '9',
        CharClass::NonLt => c != '<',
        CharClass::Cap => ('A' <= c && c <= 'Z') || ('a' <= c && c <= 'z') || ('0' <= c && c
            <= '9') || c == '~',
        CharClass::Space => c == ' ' || c == '\t' || c == '\n' || c == '\r' || c == '\u{b}' || c
            == '\u{c}',
    }
}

/// Does `pat` occur in `s` at position `i`?
pub fn check_match(s: &Vec<char>, pat: &str, i: usize) -> (b: bool)
    requires
        i <= s@.len(),
    ensures
        b == match_at(s@, pat@, i as int),
{
    let n = pat.unicode_len();
    let slen: usize = s.len();
    if n > slen - i {
        return false;
    }
    let mut j: usize = 0;
    while j < n
        invariant
            0 <= j <= n,
            slen == s@.len(),
            i + n <= slen,
            n == pat@.len(),
            forall|k: int| 0 <= k < j ==> s@[i + k] == pat@[k],
        decreases n - j,
    {
        if s[i + j] != pat.get_char(j) {
            proof {
                assert(s@[i as int + j as int] != pat@[j as int]);
            }
            return false;
        }
        j += 1;
    }
    true
}

/// First occurrence of the literal `pat` at or after `from`.
pub fn find_lit(s: &Vec<char>, pat: &str, from: usize) -> (r: Option<usize>)
    requires
        from <= s@.len(),
    ensures
        match r {
            Some(j) => from <= j && (j as int) < s@.len() && match_at(s@, pat@, j as int) && (
            forall|k: int| from <= k < j ==> !match_at(s@, pat@, k)),
            None => forall|k: int|
                from <= k < s@.len() ==> !match_at(s@, pat@, k),
        },
{
    let mut idx: usize = from;
    while idx < s.len()
        invariant
            from <= idx <= s@.len(),
            forall|k: int| from <= k < idx ==> !match_at(s@, pat@, k),
        decreases s@.len() - idx,
    {
        if check_match(s, pat, idx) {
            return Some(idx);
        }
        idx += 1;
    }
    None
}

/// End of the maximal run of class `cl` starting at `i`.
pub fn scan_run(s: &Vec<char>, cl: CharClass, i: usize) -> (r: usize)
    requires
        i <= s@.len(),
    ensures
        r == run_end(s@, class_pred(cl), i as int),
        i <= r <= s@.len(),
{
    let mut j: usize = i;
    while j < s.len() && class_check(cl, s[j])
        invariant
            i <= j <= s@.len(),
            run_end(s@, class_pred(cl), i as int) == run_end(s@, class_pred(cl), j as int),
        decreases s@.len() - j,
    {
        j += 1;
    }
    j
}

/// Numeric value of one digit character; non-digits count as zero.
pub open spec fn digit_of(c: char) -> nat {
    if c == '0' {
        0
    } else if c == '1' {
        1
    } else if c == '2' {
        2
    } else if c == '3' {
        3
    } else if c == '4' {
        4
    } else if c == '5' {
        5
    } else if c == '6' {
        6
    } else if c == '7' {
        7
    } else if c == '8' {
        8
    } else if c == '9' {
        9
    } else {
        0
    }
}

pub fn digit_val(c: char) -> (d: u64)
    ensures
        d == digit_of(c),
        d <= 9,
{
    if c == '0' {
        0
    } else if c == '1' {
        1
    } else if c == '2' {
        2
    } else if c == '3' {
        3
    } else if c == '4' {
        4
    } else if c == '5' {
        5
    } else if c == '6' {
        6
    } else if c == '7' {
        7
    } else if c == '8' {
        8
    } else if c == '9' {
        9
    } else {
        0
    }
}

/// Value of the decimal digit run `s[i..j]`, most significant digit first.
pub open spec fn digits_val(s: Seq<char>, i: int, j: int) -> nat
    decreases j - i,
{
    if i >= j {
        0
    } else {
        digits_val(s, i, j - 1) * 10 + digit_of(s[j - 1])
    }
}

pub open spec fn pow10(n: nat) -> nat
    decreases n,
{
    if n == 0 {
        1
    } else {
        10 * pow10((n - 1) as nat)
    }
}

pub proof fn lemma_digits_val_bound(s: Seq<char>, i: int, j: int)
    requires
        i <= j,
    ensures
        digits_val(s, i, j) < pow10((j - i) as nat),
    decreases j - i,
{
    if i < j {
        lemma_digits_val_bound(s, i, j - 1);
        let v = digits_val(s, i, j - 1);
        let p = pow10((j - 1 - i) as nat);
        assert(v * 10 + 9 < 10 * p) by (nonlinear_arith)
            requires
                v < p,
        {
        }
        assert(pow10((j - i) as nat) == 10 * p);
    }
}

pub proof fn lemma_digits_val_mono(s: Seq<char>, i: int, j: int, k: int)
    requires
        i <= j <= k,
    ensures
        digits_val(s, i, j) <= digits_val(s, i, k),
    decreases k - j,
{
    if j < k {
        lemma_digits_val_mono(s, i, j, k - 1);
    }
}

/// Parse the digit run `s[i..j]` as a `u64`; `None` exactly when the value
/// does not fit.
pub fn parse_u64_digits(s: &Vec<char>, i: usize, j: usize) -> (r: Option<u64>)
    requires
        i <= j <= s@.len(),
    ensures
        match r {
            Some(v) => v == digits_val(s@, i as int, j as int),
            None => digits_val(s@, i as int, j as int) > u64::MAX,
        },
{
    let mut acc: u128 = 0;
    let mut k: usize = i;
    while k < j
        invariant
            i <= k <= j <= s@.len(),
            acc == digits_val(s@, i as int, k as int),
            acc <= u64::MAX as u128,
        decreases j - k,
    {
        let d = digit_val(s[k]) as u128;
        let next = acc * 10 + d;
        if next > u64::MAX as u128 {
            proof {
                assert(digits_val(s@, i as int, k as int + 1) == acc * 10 + digit_of(s@[k as int]));
                lemma_digits_val_mono(s@, i as int, k as int + 1, j as int);
            }
            return None;
        }
        acc = next;
        k += 1;
    }
    Some(acc as u64)
}

/// Copy of `s[i..j]`.
pub fn subvec(s: &Vec<char>, i: usize, j: usize) -> (v: Vec<char>)
    requires
        i <= j <= s@.len(),
    ensures
        v@ == s@.subrange(i as int, j as int),
{
    let mut v: Vec<char> = Vec::new();
    let mut k: usize = i;
    while k < j
        invariant
            i <= k <= j <= s@.len(),
            v@ == s@.subrange(i as int, k as int),
        decreases j - k,
    {
        v.push(s[k]);
        proof {
            assert(s@.subrange(i as int, k as int + 1) =~= s@.subrange(i as int, k as int).push(
                s@[k as int],
            ));
        }
        k += 1;
    }
    v
}

/// Start of the maximal run of characters satisfying `p` that ends at `j`.
pub open spec fn rev_run_start(s: Seq<char>, p: spec_fn(char) -> bool, j: int) -> int
    decreases j,
{
    if j <= 0 {
        0
    } else if p(s[j - 1]) {
        rev_run_start(s, p, j - 1)
    } else {
        j
    }
}

/// `s` with ASCII whitespace removed from both ends.
pub open spec fn trim_spec(s: Seq<char>) -> Seq<char> {
    let a = run_end(s, class_pred(CharClass::Space), 0);
    let b = rev_run_start(s, class_pred(CharClass::Space), s.len() as int);
    if a < b {
        s.subrange(a, b)
    } else {
        Seq::empty()
    }
}

pub fn trim_chars(s: &Vec<char>) -> (v: Vec<char>)
    ensures
        v@ == trim_spec(s@),
{
    let a = scan_run(s, CharClass::Space, 0);
    let mut b: usize = s.len();
    while b > 0 && class_check(CharClass::Space, s[b - 1])
        invariant
            0 <= b <= s@.len(),
            rev_run_start(s@, class_pred(CharClass::Space), s@.len() as int) == rev_run_start(
                s@,
                class_pred(CharClass::Space),
                b as int,
            ),
        decreases b,
    {
        b -= 1;
    }
    if a < b {
        subvec(s, a, b)
    } else {
        let v: Vec<char> = Vec::new();
        v
    }
}

/// The characters of `s`, in order.
pub fn to_chars(s: &str) -> (v: Vec<char>)
    ensures
        v@ == s@,
{
    broadcast use vstd::string::group_string_axioms;

    let mut it = s.chars();
    let mut v: Vec<char> = Vec::new();
    loop
        invariant
            it.obeys_prophetic_iter_laws(),
            v@ + it.remaining() == s@,
        ensures
            v@ == s@,
        decreases s@.len() - v@.len(),
    {
        match it.next() {
            Some(c) => {
                v.push(c);
            },
            None => {
                proof {
                    assert(it.remaining().len() == 0);
                    assert(v@ + it.remaining() =~= v@);
                }
                break ;
            },
        }
    }
    v
}

/// Whether two strings hold the same characters.
pub fn str_eq_str(a: &str, b: &str) -> (r: bool)
    ensures
        r == (a@ == b@),
{
    let n = a.unicode_len();
    let m = b.unicode_len();
    if n != m {
        return false;
    }
    let mut k: usize = 0;
    while k < n
        invariant
            0 <= k <= n,
            n == a@.len(),
            n == b@.len(),
            forall|j: int| 0 <= j < k ==> a@[j] == b@[j],
        decreases n - k,
    {
        if a.get_char(k) != b.get_char(k) {
            proof {
                assert(a@[k as int] != b@[k as int]);
            }
            return false;
        }
        k += 1;
    }
    proof {
        assert(a@ =~= b@);
    }
    true
}

/// Relies on `String::push`: appends exactly one character at the end.
#[verifier::external_body]
pub fn push_char(s: &mut String, c: char)
    ensures
        final(s)@ == old(s)@.push(c),
{
    s.push(c);
}

/// A `String` holding exactly the characters of `v`.
pub fn chars_to_string(v: &Vec<char>) -> (s: String)
    ensures
        s@ == v@,
{
    let mut s = String::new();
    let mut k: usize = 0;
    while k < v.len()
        invariant
            0 <= k <= v@.len(),
            s@ == v@.subrange(0, k as int),
        decreases v@.len() - k,
    {
        push_char(&mut s, v[k]);
        proof {
            assert(v@.subrange(0, k as int + 1) =~= v@.subrange(0, k as int).push(v@[k as int]));
        }
        k += 1;
    }
    proof {
        assert(v@.subrange(0, v@.len() as int) =~= v@);
    }
    s
}

} // verus!
