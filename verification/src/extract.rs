//! The extractor set: independent rules that locate labelled fragments in a
//! status-page document and produce the sparse [`Snapshot`].
//!
//! Every rule scans the whole document for the first position where its
//! pattern matches: a fixed label, a maximal run of characters from one
//! class, and possibly a fixed tail. "Not found" and "found but malformed"
//! both yield an absent field; no rule can disturb another.

use vstd::prelude::*;

use crate::numeric::Rate;
use crate::numeric::digit_run_end;
use crate::numeric::rate_parse_spec;
use crate::numeric::size_parse_spec;
use crate::numeric::space_run_end;
use crate::scan::CharClass;
use crate::scan::chars_to_string;
use crate::scan::check_match;
use crate::scan::class_pred;
use crate::scan::digits_val;
use crate::scan::find_lit;
use crate::scan::first_where;
use crate::scan::lemma_first_where_eq_none;
use crate::scan::lemma_first_where_eq_some;
use crate::scan::lemma_run_end;
use crate::scan::match_at;
use crate::scan::parse_u64_digits;
use crate::scan::rev_run_start;
use crate::scan::run_end;
use crate::scan::scan_run;
use crate::scan::subvec;
use crate::scan::to_chars;
use crate::scan::trim_chars;
use crate::scan::trim_spec;

verus! {

// ---------------------------------------------------------------------------
// Label + run + tail patterns
// ---------------------------------------------------------------------------

/// A fixed label at `i`, a non-empty run of class `cl` right after it, and a
/// fixed tail right after the run.
pub open spec fn lrt_pred(
    lab: Seq<char>,
    cl: CharClass,
    tail: Seq<char>,
    s: Seq<char>,
    i: int,
) -> bool {
    let j = i + lab.len();
    let e = run_end(s, class_pred(cl), j);
    match_at(s, lab, i) && e > j && match_at(s, tail, e)
}

pub open spec fn lrt_fn(lab: Seq<char>, cl: CharClass, tail: Seq<char>) -> spec_fn(
    Seq<char>,
    int,
) -> bool {
    |s: Seq<char>, i: int| lrt_pred(lab, cl, tail, s, i)
}

/// Bounds of the run captured by the first match of the pattern, if any.
pub open spec fn lrt_capture(
    lab: Seq<char>,
    cl: CharClass,
    tail: Seq<char>,
    s: Seq<char>,
) -> Option<(int, int)> {
    match first_where(s, lrt_fn(lab, cl, tail), 0) {
        Some(i) => Some(
            (i + lab.len() as int, run_end(s, class_pred(cl), i + lab.len() as int)),
        ),
        None => None,
    }
}

fn lrt_pred_at(s: &Vec<char>, lab: &str, cl: CharClass, tail: &str, i: usize) -> (b: bool)
    requires
        i <= s@.len(),
    ensures
        b == lrt_pred(lab@, cl, tail@, s@, i as int),
{
    let slen: usize = s.len();
    if !check_match(s, lab, i) {
        return false;
    }
    let j = i + lab.unicode_len();
    let e = scan_run(s, cl, j);
    if e == j {
        return false;
    }
    check_match(s, tail, e)
}

/// Find the first match of label + run + tail, returning the run's bounds.
fn lrt_find(s: &Vec<char>, lab: &str, cl: CharClass, tail: &str) -> (r: Option<(usize, usize)>)
    ensures
        match r {
            Some(t) => lrt_capture(lab@, cl, tail@, s@) == Some((t.0 as int, t.1 as int)) && t.0
                <= t.1 <= s@.len(),
            None => lrt_capture(lab@, cl, tail@, s@) is None,
        },
{
    let mut idx: usize = 0;
    while idx < s.len()
        invariant
            0 <= idx <= s@.len(),
            forall|k: int| 0 <= k < idx ==> !lrt_pred(lab@, cl, tail@, s@, k),
        decreases s@.len() - idx,
    {
        if lrt_pred_at(s, lab, cl, tail, idx) {
            proof {
                lemma_first_where_eq_some(s@, lrt_fn(lab@, cl, tail@), 0, idx as int);
                lemma_run_end(s@, class_pred(cl), idx as int + lab@.len() as int);
            }
            let j = idx + lab.unicode_len();
            let e = scan_run(s, cl, j);
            return Some((j, e));
        }
        idx += 1;
    }
    proof {
        lemma_first_where_eq_none(s@, lrt_fn(lab@, cl, tail@), 0);
    }
    None
}

// ---------------------------------------------------------------------------
// Status, percentage, capability extractors
// ---------------------------------------------------------------------------

/// Labelled free text, trimmed: `None` when the label is not found.
pub open spec fn status_spec(lab: Seq<char>, s: Seq<char>) -> Option<Seq<char>> {
    match lrt_capture(lab, CharClass::NonLt, ""@, s) {
        Some(c) => Some(trim_spec(s.subrange(c.0, c.1))),
        None => None,
    }
}

fn status_chars(s: &Vec<char>, lab: &str) -> (r: Option<String>)
    ensures
        r.deep_view() == status_spec(lab@, s@),
{
    match lrt_find(s, lab, CharClass::NonLt, "") {
        Some((a, b)) => {
            let cap = subvec(s, a, b);
            let t = trim_chars(&cap);
            Some(chars_to_string(&t))
        },
        None => None,
    }
}

/// Labelled integer percentage: `None` when the pattern is not found or the
/// digits exceed `u64`.
pub open spec fn percent_spec(lab: Seq<char>, s: Seq<char>) -> Option<u64> {
    match lrt_capture(lab, CharClass::Digit, "%"@, s) {
        Some(c) => {
            if digits_val(s, c.0, c.1) > u64::MAX {
                None
            } else {
                Some(digits_val(s, c.0, c.1) as u64)
            }
        },
        None => None,
    }
}

fn percent_chars(s: &Vec<char>, lab: &str) -> (r: Option<u64>)
    ensures
        r == percent_spec(lab@, s@),
{
    match lrt_find(s, lab, CharClass::Digit, "%") {
        Some((a, b)) => parse_u64_digits(s, a, b),
        None => None,
    }
}

/// Labelled capability code: a run of `[A-Za-z0-9~]` before `<br>`.
pub open spec fn caps_spec(s: Seq<char>) -> Option<Seq<char>> {
    match lrt_capture("<b>Router Caps:</b> "@, CharClass::Cap, "<br>"@, s) {
        Some(c) => Some(s.subrange(c.0, c.1)),
        None => None,
    }
}

fn caps_chars(s: &Vec<char>) -> (r: Option<String>)
    ensures
        r.deep_view() == caps_spec(s@),
{
    match lrt_find(s, "<b>Router Caps:</b> ", CharClass::Cap, "<br>") {
        Some((a, b)) => {
            let cap = subvec(s, a, b);
            Some(chars_to_string(&cap))
        },
        None => None,
    }
}

// ---------------------------------------------------------------------------
// Direction metrics: "<size>" or "<size> (<rate>)"
// ---------------------------------------------------------------------------

pub open spec fn lit_fn(pat: Seq<char>) -> spec_fn(Seq<char>, int) -> bool {
    |s: Seq<char>, i: int| match_at(s, pat, i)
}

pub open spec fn paren_fn() -> spec_fn(char) -> bool {
    |c: char| c == ')'
}

/// The text before the first ` (`, or all of it.
pub open spec fn size_part(c: Seq<char>) -> Seq<char> {
    match first_where(c, lit_fn(" ("@), 0) {
        Some(p) => c.subrange(0, p),
        None => c,
    }
}

/// The text between the first ` (` and the next ` (` or the end, with every
/// trailing `)` removed; `None` when no ` (` occurs.
pub open spec fn rate_part(c: Seq<char>) -> Option<Seq<char>> {
    match first_where(c, lit_fn(" ("@), 0) {
        Some(p) => {
            let a = p + " ("@.len();
            let b = match first_where(c, lit_fn(" ("@), a) {
                Some(q) => q,
                None => c.len() as int,
            };
            let mid = c.subrange(a, b);
            Some(mid.subrange(0, rev_run_start(mid, paren_fn(), mid.len() as int)))
        },
        None => None,
    }
}

/// Byte count and rate drawn from one labelled direction fragment. The two
/// halves are independently optional.
pub open spec fn direction_spec(lab: Seq<char>, s: Seq<char>) -> (Option<u64>, Option<Rate>) {
    match lrt_capture(lab, CharClass::NonLt, "<br>"@, s) {
        Some(cp) => {
            let c = s.subrange(cp.0, cp.1);
            (
                size_parse_spec(size_part(c)),
                match rate_part(c) {
                    Some(rp) => rate_parse_spec(rp),
                    None => None,
                },
            )
        },
        None => (None, None),
    }
}

/// First occurrence of `pat` at or after `from`, as `first_where`.
fn find_lit_fw(s: &Vec<char>, pat: &str, from: usize) -> (r: Option<usize>)
    requires
        from <= s@.len(),
    ensures
        match r {
            Some(j) => first_where(s@, lit_fn(pat@), from as int) == Some(j as int) && from <= j
                && j + pat@.len() <= s@.len(),
            None => first_where(s@, lit_fn(pat@), from as int) is None,
        },
{
    match find_lit(s, pat, from) {
        Some(j) => {
            proof {
                lemma_first_where_eq_some(s@, lit_fn(pat@), from as int, j as int);
            }
            Some(j)
        },
        None => {
            proof {
                lemma_first_where_eq_none(s@, lit_fn(pat@), from as int);
            }
            None
        },
    }
}

/// Strip every trailing `)` from `c`.
fn strip_trailing_parens(c: &Vec<char>) -> (v: Vec<char>)
    ensures
        v@ == c@.subrange(0, rev_run_start(c@, paren_fn(), c@.len() as int)),
{
    let mut b: usize = c.len();
    while b > 0 && c[b - 1] == ')'
        invariant
            0 <= b <= c@.len(),
            rev_run_start(c@, paren_fn(), c@.len() as int) == rev_run_start(
                c@,
                paren_fn(),
                b as int,
            ),
        decreases b,
    {
        b -= 1;
    }
    subvec(c, 0, b)
}

fn direction_chars(s: &Vec<char>, lab: &str) -> (r: (Option<u64>, Option<Rate>))
    ensures
        r == direction_spec(lab@, s@),
{
    match lrt_find(s, lab, CharClass::NonLt, "<br>") {
        Some((a, b)) => {
            let c = subvec(s, a, b);
            let sep = " (";
            let seplen = sep.unicode_len();
            match find_lit_fw(&c, sep, 0) {
                Some(p) => {
                    let sp = subvec(&c, 0, p);
                    let size = crate::numeric::parse_size_chars(&sp);
                    let a2 = p + seplen;
                    let b2 = match find_lit_fw(&c, sep, a2) {
                        Some(q) => q,
                        None => c.len(),
                    };
                    let mid = subvec(&c, a2, b2);
                    let rp = strip_trailing_parens(&mid);
                    let rate = crate::numeric::parse_rate_chars(&rp);
                    (size, rate)
                },
                None => {
                    let size = crate::numeric::parse_size_chars(&c);
                    (size, None)
                },
            }
        },
        None => (None, None),
    }
}

// ---------------------------------------------------------------------------
// Grouped integer counts on one line
// ---------------------------------------------------------------------------

/// Two labels, each followed by a non-empty digit run, the second label
/// immediately after the first run.
pub open spec fn counts2_pred(l1: Seq<char>, l2: Seq<char>, s: Seq<char>, i: int) -> bool {
    let j1 = i + l1.len();
    let e1 = digit_run_end(s, j1);
    let j2 = e1 + l2.len();
    let e2 = digit_run_end(s, j2);
    match_at(s, l1, i) && e1 > j1 && match_at(s, l2, e1) && e2 > j2
}

pub open spec fn counts2_fn(l1: Seq<char>, l2: Seq<char>) -> spec_fn(Seq<char>, int) -> bool {
    |s: Seq<char>, i: int| counts2_pred(l1, l2, s, i)
}

/// Three labels, each followed by a non-empty digit run.
pub open spec fn counts3_pred(
    l1: Seq<char>,
    l2: Seq<char>,
    l3: Seq<char>,
    s: Seq<char>,
    i: int,
) -> bool {
    let j1 = i + l1.len();
    let e1 = digit_run_end(s, j1);
    let j2 = e1 + l2.len();
    let e2 = digit_run_end(s, j2);
    let j3 = e2 + l3.len();
    let e3 = digit_run_end(s, j3);
    match_at(s, l1, i) && e1 > j1 && match_at(s, l2, e1) && e2 > j2 && match_at(s, l3, e2) && e3
        > j3
}

pub open spec fn counts3_fn(l1: Seq<char>, l2: Seq<char>, l3: Seq<char>) -> spec_fn(
    Seq<char>,
    int,
) -> bool {
    |s: Seq<char>, i: int| counts3_pred(l1, l2, l3, s, i)
}

/// A digit run read as `u64`; `None` on overflow alone.
pub open spec fn group_val(s: Seq<char>, a: int, b: int) -> Option<u64> {
    if digits_val(s, a, b) > u64::MAX {
        None
    } else {
        Some(digits_val(s, a, b) as u64)
    }
}

/// Router / floodfill / leaseset counts: matched together or absent
/// together, each integer then parsed independently.
pub open spec fn net_counts_spec(s: Seq<char>) -> (Option<u64>, Option<u64>, Option<u64>) {
    let l1 = "<b>Routers:</b> "@;
    let l2 = " <b>Floodfills:</b> "@;
    let l3 = " <b>LeaseSets:</b> "@;
    match first_where(s, counts3_fn(l1, l2, l3), 0) {
        Some(i) => {
            let j1 = i + l1.len();
            let e1 = digit_run_end(s, j1);
            let j2 = e1 + l2.len();
            let e2 = digit_run_end(s, j2);
            let j3 = e2 + l3.len();
            let e3 = digit_run_end(s, j3);
            (group_val(s, j1, e1), group_val(s, j2, e2), group_val(s, j3, e3))
        },
        None => (None, None, None),
    }
}

/// Client / transit tunnel counts: matched together or absent together.
pub open spec fn tunnel_counts_spec(s: Seq<char>) -> (Option<u64>, Option<u64>) {
    let l1 = "<b>Client Tunnels:</b> "@;
    let l2 = " <b>Transit Tunnels:</b> "@;
    match first_where(s, counts2_fn(l1, l2), 0) {
        Some(i) => {
            let j1 = i + l1.len();
            let e1 = digit_run_end(s, j1);
            let j2 = e1 + l2.len();
            let e2 = digit_run_end(s, j2);
            (group_val(s, j1, e1), group_val(s, j2, e2))
        },
        None => (None, None),
    }
}

fn counts2_at(s: &Vec<char>, l1: &str, l2: &str, i: usize) -> (o: Option<(usize, usize, usize, usize)>)
    requires
        i <= s@.len(),
    ensures
        match o {
            Some(t) => counts2_pred(l1@, l2@, s@, i as int) && t.0 == i + l1@.len() && t.1
                == digit_run_end(s@, t.0 as int) && t.2 == t.1 + l2@.len() && t.3
                == digit_run_end(s@, t.2 as int) && t.0 <= t.1 <= t.2 <= t.3 <= s@.len(),
            None => !counts2_pred(l1@, l2@, s@, i as int),
        },
{
    let slen: usize = s.len();
    if !check_match(s, l1, i) {
        return None;
    }
    let j1 = i + l1.unicode_len();
    proof {
        lemma_run_end(s@, class_pred(CharClass::Digit), j1 as int);
    }
    let e1 = scan_run(s, CharClass::Digit, j1);
    if e1 == j1 {
        return None;
    }
    if !check_match(s, l2, e1) {
        return None;
    }
    let j2 = e1 + l2.unicode_len();
    proof {
        lemma_run_end(s@, class_pred(CharClass::Digit), j2 as int);
    }
    let e2 = scan_run(s, CharClass::Digit, j2);
    if e2 == j2 {
        return None;
    }
    Some((j1, e1, j2, e2))
}

fn counts3_at(s: &Vec<char>, l1: &str, l2: &str, l3: &str, i: usize) -> (o: Option<
    (usize, usize, usize, usize, usize, usize),
>)
    requires
        i <= s@.len(),
    ensures
        match o {
            Some(t) => counts3_pred(l1@, l2@, l3@, s@, i as int) && t.0 == i + l1@.len() && t.1
                == digit_run_end(s@, t.0 as int) && t.2 == t.1 + l2@.len() && t.3
                == digit_run_end(s@, t.2 as int) && t.4 == t.3 + l3@.len() && t.5
                == digit_run_end(s@, t.4 as int) && t.0 <= t.1 <= t.2 <= t.3 <= t.4 <= t.5
                <= s@.len(),
            None => !counts3_pred(l1@, l2@, l3@, s@, i as int),
        },
{
    let slen: usize = s.len();
    match counts2_at(s, l1, l2, i) {
        Some((j1, e1, j2, e2)) => {
            if !check_match(s, l3, e2) {
                return None;
            }
            let j3 = e2 + l3.unicode_len();
            proof {
                lemma_run_end(s@, class_pred(CharClass::Digit), j3 as int);
            }
            let e3 = scan_run(s, CharClass::Digit, j3);
            if e3 == j3 {
                return None;
            }
            Some((j1, e1, j2, e2, j3, e3))
        },
        None => None,
    }
}

#[verifier::loop_isolation(false)]
fn net_counts_chars(s: &Vec<char>) -> (r: (Option<u64>, Option<u64>, Option<u64>))
    ensures
        r == net_counts_spec(s@),
{
    let l1 = "<b>Routers:</b> ";
    let l2 = " <b>Floodfills:</b> ";
    let l3 = " <b>LeaseSets:</b> ";
    let mut idx: usize = 0;
    while idx < s.len()
        invariant
            0 <= idx <= s@.len(),
            forall|k: int| 0 <= k < idx ==> !counts3_pred(l1@, l2@, l3@, s@, k),
        decreases s@.len() - idx,
    {
        match counts3_at(s, l1, l2, l3, idx) {
            Some((j1, e1, j2, e2, j3, e3)) => {
                proof {
                    lemma_first_where_eq_some(s@, counts3_fn(l1@, l2@, l3@), 0, idx as int);
                }
                return (
                    parse_u64_digits(s, j1, e1),
                    parse_u64_digits(s, j2, e2),
                    parse_u64_digits(s, j3, e3),
                );
            },
            None => {},
        }
        idx += 1;
    }
    proof {
        lemma_first_where_eq_none(s@, counts3_fn(l1@, l2@, l3@), 0);
    }
    (None, None, None)
}

#[verifier::loop_isolation(false)]
fn tunnel_counts_chars(s: &Vec<char>) -> (r: (Option<u64>, Option<u64>))
    ensures
        r == tunnel_counts_spec(s@),
{
    let l1 = "<b>Client Tunnels:</b> ";
    let l2 = " <b>Transit Tunnels:</b> ";
    let mut idx: usize = 0;
    while idx < s.len()
        invariant
            0 <= idx <= s@.len(),
            forall|k: int| 0 <= k < idx ==> !counts2_pred(l1@, l2@, s@, k),
        decreases s@.len() - idx,
    {
        match counts2_at(s, l1, l2, idx) {
            Some((j1, e1, j2, e2)) => {
                proof {
                    lemma_first_where_eq_some(s@, counts2_fn(l1@, l2@), 0, idx as int);
                }
                return (parse_u64_digits(s, j1, e1), parse_u64_digits(s, j2, e2));
            },
            None => {},
        }
        idx += 1;
    }
    proof {
        lemma_first_where_eq_none(s@, counts2_fn(l1@, l2@), 0);
    }
    (None, None)
}

// ---------------------------------------------------------------------------
// External address table rows
// ---------------------------------------------------------------------------

/// A two-cell table row: `<tr>`, optional whitespace, two `<td>`-wrapped
/// cells of non-`<` text, `</tr>`.
pub open spec fn row2_pred(s: Seq<char>, i: int) -> bool {
    let a1 = i + "<tr>"@.len();
    let b1 = space_run_end(s, a1);
    let a2 = b1 + "<td>"@.len();
    let e2 = run_end(s, class_pred(CharClass::NonLt), a2);
    let a3 = e2 + "</td>"@.len();
    let b3 = space_run_end(s, a3);
    let a4 = b3 + "<td>"@.len();
    let e4 = run_end(s, class_pred(CharClass::NonLt), a4);
    let a5 = e4 + "</td>"@.len();
    let b5 = space_run_end(s, a5);
    match_at(s, "<tr>"@, i) && match_at(s, "<td>"@, b1) && e2 > a2 && match_at(s, "</td>"@, e2)
        && match_at(s, "<td>"@, b3) && e4 > a4 && match_at(s, "</td>"@, e4) && match_at(
        s,
        "</tr>"@,
        b5,
    )
}

/// Bounds of the two cells of the row matched at `i`.
pub open spec fn row2_caps(s: Seq<char>, i: int) -> (int, int, int, int) {
    let a1 = i + "<tr>"@.len();
    let b1 = space_run_end(s, a1);
    let a2 = b1 + "<td>"@.len();
    let e2 = run_end(s, class_pred(CharClass::NonLt), a2);
    let a3 = e2 + "</td>"@.len();
    let b3 = space_run_end(s, a3);
    let a4 = b3 + "<td>"@.len();
    let e4 = run_end(s, class_pred(CharClass::NonLt), a4);
    (a2, e2, a4, e4)
}

/// All two-cell rows matched at or after `i`, in order.
pub open spec fn addr_rows_from(s: Seq<char>, i: int) -> Seq<(Seq<char>, Seq<char>)>
    decreases s.len() - i,
{
    if i < 0 || i >= s.len() {
        Seq::empty()
    } else {
        let rest = addr_rows_from(s, i + 1);
        if row2_pred(s, i) {
            let c = row2_caps(s, i);
            seq![(s.subrange(c.0, c.1), s.subrange(c.2, c.3))] + rest
        } else {
            rest
        }
    }
}

#[verifier::loop_isolation(false)]
fn row2_at(s: &Vec<char>, i: usize) -> (o: Option<(usize, usize, usize, usize)>)
    requires
        i <= s@.len(),
    ensures
        match o {
            Some(t) => row2_pred(s@, i as int) && (t.0 as int, t.1 as int, t.2 as int, t.3 as int)
                == row2_caps(s@, i as int) && t.0 <= t.1 <= s@.len() && t.2 <= t.3 <= s@.len(),
            None => !row2_pred(s@, i as int),
        },
{
    let slen: usize = s.len();
    if !check_match(s, "<tr>", i) {
        return None;
    }
    let a1 = i + "<tr>".unicode_len();
    proof {
        lemma_run_end(s@, class_pred(CharClass::Space), a1 as int);
    }
    let b1 = scan_run(s, CharClass::Space, a1);
    if !check_match(s, "<td>", b1) {
        return None;
    }
    let a2 = b1 + "<td>".unicode_len();
    proof {
        lemma_run_end(s@, class_pred(CharClass::NonLt), a2 as int);
    }
    let e2 = scan_run(s, CharClass::NonLt, a2);
    if e2 == a2 {
        return None;
    }
    if !check_match(s, "</td>", e2) {
        return None;
    }
    let a3 = e2 + "</td>".unicode_len();
    proof {
        lemma_run_end(s@, class_pred(CharClass::Space), a3 as int);
    }
    let b3 = scan_run(s, CharClass::Space, a3);
    if !check_match(s, "<td>", b3) {
        return None;
    }
    let a4 = b3 + "<td>".unicode_len();
    proof {
        lemma_run_end(s@, class_pred(CharClass::NonLt), a4 as int);
    }
    let e4 = scan_run(s, CharClass::NonLt, a4);
    if e4 == a4 {
        return None;
    }
    if !check_match(s, "</td>", e4) {
        return None;
    }
    let a5 = e4 + "</td>".unicode_len();
    proof {
        lemma_run_end(s@, class_pred(CharClass::Space), a5 as int);
    }
    let b5 = scan_run(s, CharClass::Space, a5);
    if !check_match(s, "</tr>", b5) {
        return None;
    }
    Some((a2, e2, a4, e4))
}

#[verifier::loop_isolation(false)]
fn addr_rows(s: &Vec<char>) -> (out: Vec<(String, String)>)
    ensures
        out.deep_view() == addr_rows_from(s@, 0),
{
    let mut out: Vec<(String, String)> = Vec::new();
    proof {
        assert(out.deep_view() =~= Seq::<(Seq<char>, Seq<char>)>::empty());
    }
    let mut i: usize = 0;
    while i < s.len()
        invariant
            0 <= i <= s@.len(),
            addr_rows_from(s@, 0) == out.deep_view() + addr_rows_from(s@, i as int),
        decreases s@.len() - i,
    {
        let ghost pre = out.deep_view();
        match row2_at(s, i) {
            Some((c1, c2, c3, c4)) => {
                let p = subvec(s, c1, c2);
                let a = subvec(s, c3, c4);
                out.push((chars_to_string(&p), chars_to_string(&a)));
                proof {
                    let el = (s@.subrange(c1 as int, c2 as int), s@.subrange(c3 as int, c4 as int));
                    assert(out.deep_view() =~= pre + seq![el]);
                    assert(addr_rows_from(s@, i as int) == seq![el] + addr_rows_from(
                        s@,
                        i as int + 1,
                    ));
                    assert((pre + seq![el]) + addr_rows_from(s@, i as int + 1) =~= pre + (
                    seq![el] + addr_rows_from(s@, i as int + 1)));
                }
            },
            None => {},
        }
        i += 1;
    }
    proof {
        assert(addr_rows_from(s@, s@.len() as int) =~= Seq::<(Seq<char>, Seq<char>)>::empty());
        assert(out.deep_view() + Seq::<(Seq<char>, Seq<char>)>::empty() =~= out.deep_view());
    }
    out
}

/// The address table: rows of the specifically-classed table inside the
/// external-address section. Absent section or table yields no rows.
pub open spec fn ext_addr_spec(s: Seq<char>) -> Seq<(Seq<char>, Seq<char>)> {
    match first_where(s, lit_fn("<b>Our external address:</b>"@), 0) {
        Some(st) => match first_where(s, lit_fn("<table class=\"extaddr\">"@), st) {
            Some(ts) => match first_where(s, lit_fn("</table>"@), ts) {
                Some(te) => addr_rows_from(s.subrange(ts, te + "</table>"@.len()), 0),
                None => Seq::empty(),
            },
            None => Seq::empty(),
        },
        None => Seq::empty(),
    }
}

#[verifier::loop_isolation(false)]
fn ext_addrs_chars(s: &Vec<char>) -> (out: Vec<(String, String)>)
    ensures
        out.deep_view() == ext_addr_spec(s@),
{
    let slen: usize = s.len();
    let empty: Vec<(String, String)> = Vec::new();
    proof {
        assert(empty.deep_view() =~= Seq::<(Seq<char>, Seq<char>)>::empty());
    }
    match find_lit_fw(s, "<b>Our external address:</b>", 0) {
        Some(st) => {
            match find_lit_fw(s, "<table class=\"extaddr\">", st) {
                Some(ts) => {
                    match find_lit_fw(s, "</table>", ts) {
                        Some(te) => {
                            let end = te + "</table>".unicode_len();
                            let region = subvec(s, ts, end);
                            addr_rows(&region)
                        },
                        None => empty,
                    }
                },
                None => empty,
            }
        },
        None => empty,
    }
}

// ---------------------------------------------------------------------------
// Service status table rows
// ---------------------------------------------------------------------------

/// A service row: a name cell, then a cell whose CSS class is `enabled` or
/// `disabled` and whose text is non-`<` characters.
pub open spec fn srow_pred(s: Seq<char>, i: int) -> bool {
    let a1 = i + "<tr><td>"@.len();
    let e1 = run_end(s, class_pred(CharClass::NonLt), a1);
    let a2 = e1 + "</td><td class='"@.len();
    let ce = if match_at(s, "enabled"@, a2) {
        a2 + "enabled"@.len()
    } else {
        a2 + "disabled"@.len()
    };
    let a3 = ce + "'>"@.len();
    let e3 = run_end(s, class_pred(CharClass::NonLt), a3);
    match_at(s, "<tr><td>"@, i) && e1 > a1 && match_at(s, "</td><td class='"@, e1) && (match_at(
        s,
        "enabled"@,
        a2,
    ) || match_at(s, "disabled"@, a2)) && match_at(s, "'>"@, ce) && e3 > a3 && match_at(
        s,
        "</td></tr>"@,
        e3,
    )
}

/// Name bounds and enabled flag of the service row matched at `i`.
pub open spec fn srow_caps(s: Seq<char>, i: int) -> (int, int, bool) {
    let a1 = i + "<tr><td>"@.len();
    let e1 = run_end(s, class_pred(CharClass::NonLt), a1);
    let a2 = e1 + "</td><td class='"@.len();
    (a1, e1, match_at(s, "enabled"@, a2))
}

/// Key normalization: ASCII letters lowercased, spaces to underscores.
pub open spec fn norm_char(c: char) -> char {
    if c == ' ' {
        '_'
    } else if c == 'A' {
        'a'
    } else if c == 'B' {
        'b'
    } else if c == 'C' {
        'c'
    } else if c == 'D' {
        'd'
    } else if c == 'E' {
        'e'
    } else if c == 'F' {
        'f'
    } else if c == 'G' {
        'g'
    } else if c == 'H' {
        'h'
    } else if c == 'I' {
        'i'
    } else if c == 'J' {
        'j'
    } else if c == 'K' {
        'k'
    } else if c == 'L' {
        'l'
    } else if c == 'M' {
        'm'
    } else if c == 'N' {
        'n'
    } else if c == 'O' {
        'o'
    } else if c == 'P' {
        'p'
    } else if c == 'Q' {
        'q'
    } else if c == 'R' {
        'r'
    } else if c == 'S' {
        's'
    } else if c == 'T' {
        't'
    } else if c == 'U' {
        'u'
    } else if c == 'V' {
        'v'
    } else if c == 'W' {
        'w'
    } else if c == 'X' {
        'x'
    } else if c == 'Y' {
        'y'
    } else if c == 'Z' {
        'z'
    } else {
        c
    }
}

pub open spec fn norm_name(s: Seq<char>) -> Seq<char> {
    s.map_values(|c: char| norm_char(c))
}

fn norm_char_exec(c: char) -> (r: char)
    ensures
        r == norm_char(c),
{
    if c == ' ' {
        '_'
    } else if 'A' <= c && c <= 'Z' {
        if c == 'A' {
            'a'
        } else if c == 'B' {
            'b'
        } else if c == 'C' {
            'c'
        } else if c == 'D' {
            'd'
        } else if c == 'E' {
            'e'
        } else if c == 'F' {
            'f'
        } else if c == 'G' {
            'g'
        } else if c == 'H' {
            'h'
        } else if c == 'I' {
            'i'
        } else if c == 'J' {
            'j'
        } else if c == 'K' {
            'k'
        } else if c == 'L' {
            'l'
        } else if c == 'M' {
            'm'
        } else if c == 'N' {
            'n'
        } else if c == 'O' {
            'o'
        } else if c == 'P' {
            'p'
        } else if c == 'Q' {
            'q'
        } else if c == 'R' {
            'r'
        } else if c == 'S' {
            's'
        } else if c == 'T' {
            't'
        } else if c == 'U' {
            'u'
        } else if c == 'V' {
            'v'
        } else if c == 'W' {
            'w'
        } else if c == 'X' {
            'x'
        } else if c == 'Y' {
            'y'
        } else {
            'z'
        }
    } else {
        c
    }
}

#[verifier::loop_isolation(false)]
fn norm_name_exec(s: &Vec<char>, a: usize, b: usize) -> (v: Vec<char>)
    requires
        a <= b <= s@.len(),
    ensures
        v@ == norm_name(s@.subrange(a as int, b as int)),
{
    let mut v: Vec<char> = Vec::new();
    let mut k: usize = a;
    while k < b
        invariant
            a <= k <= b,
            v@.len() == k - a,
            forall|j: int| 0 <= j < k - a ==> v@[j] == norm_char(s@[a + j]),
        decreases b - k,
    {
        v.push(norm_char_exec(s[k]));
        k += 1;
    }
    proof {
        assert(v@ =~= norm_name(s@.subrange(a as int, b as int)));
    }
    v
}

/// All service rows matched at or after `i`, names normalized, in order.
pub open spec fn service_rows_from(s: Seq<char>, i: int) -> Seq<(Seq<char>, bool)>
    decreases s.len() - i,
{
    if i < 0 || i >= s.len() {
        Seq::empty()
    } else {
        let rest = service_rows_from(s, i + 1);
        if srow_pred(s, i) {
            let c = srow_caps(s, i);
            seq![(norm_name(s.subrange(c.0, c.1)), c.2)] + rest
        } else {
            rest
        }
    }
}

#[verifier::loop_isolation(false)]
fn srow_at(s: &Vec<char>, i: usize) -> (o: Option<(usize, usize, bool)>)
    requires
        i <= s@.len(),
    ensures
        match o {
            Some(t) => srow_pred(s@, i as int) && (t.0 as int, t.1 as int, t.2) == srow_caps(
                s@,
                i as int,
            ) && t.0 <= t.1 <= s@.len(),
            None => !srow_pred(s@, i as int),
        },
{
    let slen: usize = s.len();
    if !check_match(s, "<tr><td>", i) {
        return None;
    }
    let a1 = i + "<tr><td>".unicode_len();
    proof {
        lemma_run_end(s@, class_pred(CharClass::NonLt), a1 as int);
    }
    let e1 = scan_run(s, CharClass::NonLt, a1);
    if e1 == a1 {
        return None;
    }
    if !check_match(s, "</td><td class='", e1) {
        return None;
    }
    let a2 = e1 + "</td><td class='".unicode_len();
    let en = check_match(s, "enabled", a2);
    if !en && !check_match(s, "disabled", a2) {
        return None;
    }
    let ce = if en {
        a2 + "enabled".unicode_len()
    } else {
        a2 + "disabled".unicode_len()
    };
    if !check_match(s, "'>", ce) {
        return None;
    }
    let a3 = ce + "'>".unicode_len();
    proof {
        lemma_run_end(s@, class_pred(CharClass::NonLt), a3 as int);
    }
    let e3 = scan_run(s, CharClass::NonLt, a3);
    if e3 == a3 {
        return None;
    }
    if !check_match(s, "</td></tr>", e3) {
        return None;
    }
    Some((a1, e1, en))
}

#[verifier::loop_isolation(false)]
fn service_rows(s: &Vec<char>) -> (out: Vec<(String, bool)>)
    ensures
        out.deep_view() == service_rows_from(s@, 0),
{
    let mut out: Vec<(String, bool)> = Vec::new();
    proof {
        assert(out.deep_view() =~= Seq::<(Seq<char>, bool)>::empty());
    }
    let mut i: usize = 0;
    while i < s.len()
        invariant
            0 <= i <= s@.len(),
            service_rows_from(s@, 0) == out.deep_view() + service_rows_from(s@, i as int),
        decreases s@.len() - i,
    {
        let ghost pre = out.deep_view();
        match srow_at(s, i) {
            Some((a, b, en)) => {
                let nm = norm_name_exec(s, a, b);
                out.push((chars_to_string(&nm), en));
                proof {
                    let el = (norm_name(s@.subrange(a as int, b as int)), en);
                    assert(out.deep_view() =~= pre + seq![el]);
                    assert(service_rows_from(s@, i as int) == seq![el] + service_rows_from(
                        s@,
                        i as int + 1,
                    ));
                    assert((pre + seq![el]) + service_rows_from(s@, i as int + 1) =~= pre + (
                    seq![el] + service_rows_from(s@, i as int + 1)));
                }
            },
            None => {},
        }
        i += 1;
    }
    proof {
        assert(service_rows_from(s@, s@.len() as int) =~= Seq::<(Seq<char>, bool)>::empty());
        assert(out.deep_view() + Seq::<(Seq<char>, bool)>::empty() =~= out.deep_view());
    }
    out
}

// ---------------------------------------------------------------------------
// The service mapping: unique keys, a later row overwrites an earlier one
// ---------------------------------------------------------------------------

/// Replace the first entry keyed `k`, or append one.
pub open spec fn upsert(m: Seq<(Seq<char>, bool)>, k: Seq<char>, v: bool) -> Seq<(Seq<char>, bool)>
    decreases m.len(),
{
    if m.len() == 0 {
        seq![(k, v)]
    } else if m[0].0 == k {
        seq![(k, v)] + m.drop_first()
    } else {
        seq![m[0]] + upsert(m.drop_first(), k, v)
    }
}

/// The mapping after inserting the first `n` rows in order.
pub open spec fn dedup_rows(rows: Seq<(Seq<char>, bool)>, n: int) -> Seq<(Seq<char>, bool)>
    decreases n,
{
    if n <= 0 {
        Seq::empty()
    } else {
        upsert(dedup_rows(rows, n - 1), rows[n - 1].0, rows[n - 1].1)
    }
}

pub proof fn lemma_upsert_found(m: Seq<(Seq<char>, bool)>, k: Seq<char>, v: bool, f: int)
    requires
        0 <= f < m.len(),
        m[f].0 == k,
        forall|j: int| 0 <= j < f ==> m[j].0 != k,
    ensures
        upsert(m, k, v) =~= m.update(f, (k, v)),
    decreases f,
{
    if f == 0 {
        assert(upsert(m, k, v) =~= m.update(0, (k, v)));
    } else {
        assert(m[0].0 != k);
        lemma_upsert_found(m.drop_first(), k, v, f - 1);
        assert(seq![m[0]] + m.drop_first().update(f - 1, (k, v)) =~= m.update(f, (k, v)));
    }
}

pub proof fn lemma_upsert_absent(m: Seq<(Seq<char>, bool)>, k: Seq<char>, v: bool)
    requires
        forall|j: int| 0 <= j < m.len() ==> m[j].0 != k,
    ensures
        upsert(m, k, v) =~= m + seq![(k, v)],
    decreases m.len(),
{
    if m.len() == 0 {
        assert(upsert(m, k, v) =~= m + seq![(k, v)]);
    } else {
        assert(m[0].0 != k);
        lemma_upsert_absent(m.drop_first(), k, v);
        assert(seq![m[0]] + (m.drop_first() + seq![(k, v)]) =~= m + seq![(k, v)]);
    }
}

#[verifier::loop_isolation(false)]
fn upsert_exec(m: &mut Vec<(String, bool)>, k: String, v: bool)
    ensures
        final(m).deep_view() == upsert(old(m).deep_view(), k@, v),
{
    let ghost m0 = m.deep_view();
    let mut idx: usize = 0;
    while idx < m.len()
        invariant
            0 <= idx <= m@.len(),
            *m == *old(m),
            forall|j: int| 0 <= j < idx ==> m.deep_view()[j].0 != k@,
        decreases m@.len() - idx,
    {
        if m[idx].0 == k {
            proof {
                lemma_upsert_found(m0, k@, v, idx as int);
            }
            let ghost pre = m.deep_view();
            m.set(idx, (k, v));
            proof {
                assert(m.deep_view() =~= pre.update(idx as int, (k@, v)));
            }
            return ;
        }
        idx += 1;
    }
    proof {
        lemma_upsert_absent(m0, k@, v);
    }
    let ghost pre = m.deep_view();
    m.push((k, v));
    proof {
        assert(m.deep_view() =~= pre + seq![(k@, v)]);
    }
}

#[verifier::loop_isolation(false)]
fn dedup_exec(rows: &Vec<(String, bool)>) -> (out: Vec<(String, bool)>)
    ensures
        out.deep_view() == dedup_rows(rows.deep_view(), rows.deep_view().len() as int),
{
    let mut out: Vec<(String, bool)> = Vec::new();
    proof {
        assert(out.deep_view() =~= Seq::<(Seq<char>, bool)>::empty());
    }
    let mut n: usize = 0;
    while n < rows.len()
        invariant
            0 <= n <= rows@.len(),
            out.deep_view() == dedup_rows(rows.deep_view(), n as int),
        decreases rows@.len() - n,
    {
        let k = rows[n].0.clone();
        let v = rows[n].1;
        proof {
            assert(rows.deep_view()[n as int].0 == k@);
        }
        upsert_exec(&mut out, k, v);
        n += 1;
    }
    out
}

/// The service mapping: rows of the specifically-classed table, names
/// normalized, a later duplicate key overwriting the earlier entry.
pub open spec fn services_spec(s: Seq<char>) -> Seq<(Seq<char>, bool)> {
    match first_where(s, lit_fn("<table class=\"services\">"@), 0) {
        Some(ts) => match first_where(s, lit_fn("</table>"@), ts) {
            Some(te) => {
                let rows = service_rows_from(s.subrange(ts, te + "</table>"@.len()), 0);
                dedup_rows(rows, rows.len() as int)
            },
            None => Seq::empty(),
        },
        None => Seq::empty(),
    }
}

#[verifier::loop_isolation(false)]
fn services_chars(s: &Vec<char>) -> (out: Vec<(String, bool)>)
    ensures
        out.deep_view() == services_spec(s@),
{
    let slen: usize = s.len();
    let empty: Vec<(String, bool)> = Vec::new();
    proof {
        assert(empty.deep_view() =~= Seq::<(Seq<char>, bool)>::empty());
    }
    match find_lit_fw(s, "<table class=\"services\">", 0) {
        Some(ts) => {
            match find_lit_fw(s, "</table>", ts) {
                Some(te) => {
                    let end = te + "</table>".unicode_len();
                    let region = subvec(s, ts, end);
                    let rows = service_rows(&region);
                    dedup_exec(&rows)
                },
                None => empty,
            }
        },
        None => empty,
    }
}

// ---------------------------------------------------------------------------
// Snapshot
// ---------------------------------------------------------------------------

/// Byte totals and transfer rates per direction, each independently optional.
#[derive(Debug)]
pub struct DataMetrics {
    pub received_bytes: Option<u64>,
    pub sent_bytes: Option<u64>,
    pub transit_bytes: Option<u64>,
    pub received_rate: Option<Rate>,
    pub sent_rate: Option<Rate>,
    pub transit_rate: Option<Rate>,
}

impl Default for DataMetrics {
    /// All six measurements absent.
    fn default() -> (d: DataMetrics)
        ensures
            d.received_bytes is None,
            d.sent_bytes is None,
            d.transit_bytes is None,
            d.received_rate is None,
            d.sent_rate is None,
            d.transit_rate is None,
    {
        DataMetrics {
            received_bytes: None,
            sent_bytes: None,
            transit_bytes: None,
            received_rate: None,
            sent_rate: None,
            transit_rate: None,
        }
    }
}

/// The aggregate of all extraction results for one document. Each field is
/// present or absent on its own; nothing else relates them.
#[derive(Debug)]
pub struct Snapshot {
    pub ipv4_status: Option<String>,
    pub ipv6_status: Option<String>,
    pub tunnel_creation_rate: Option<u64>,
    pub data_metrics: DataMetrics,
    pub router_capabilities: Option<String>,
    pub external_addresses: Vec<(String, String)>,
    pub router_count: Option<u64>,
    pub floodfill_count: Option<u64>,
    pub leaseset_count: Option<u64>,
    pub client_tunnel_count: Option<u64>,
    pub transit_tunnel_count: Option<u64>,
    pub service_statuses: Vec<(String, bool)>,
}

/// The mathematical content of a [`Snapshot`].
#[verifier::ext_equal]
pub ghost struct SnapView {
    pub ipv4_status: Option<Seq<char>>,
    pub ipv6_status: Option<Seq<char>>,
    pub tunnel_creation_rate: Option<u64>,
    pub received_bytes: Option<u64>,
    pub sent_bytes: Option<u64>,
    pub transit_bytes: Option<u64>,
    pub received_rate: Option<Rate>,
    pub sent_rate: Option<Rate>,
    pub transit_rate: Option<Rate>,
    pub router_capabilities: Option<Seq<char>>,
    pub external_addresses: Seq<(Seq<char>, Seq<char>)>,
    pub router_count: Option<u64>,
    pub floodfill_count: Option<u64>,
    pub leaseset_count: Option<u64>,
    pub client_tunnel_count: Option<u64>,
    pub transit_tunnel_count: Option<u64>,
    pub service_statuses: Seq<(Seq<char>, bool)>,
}

impl View for Snapshot {
    type V = SnapView;

    open spec fn view(&self) -> SnapView {
        SnapView {
            ipv4_status: self.ipv4_status.deep_view(),
            ipv6_status: self.ipv6_status.deep_view(),
            tunnel_creation_rate: self.tunnel_creation_rate,
            received_bytes: self.data_metrics.received_bytes,
            sent_bytes: self.data_metrics.sent_bytes,
            transit_bytes: self.data_metrics.transit_bytes,
            received_rate: self.data_metrics.received_rate,
            sent_rate: self.data_metrics.sent_rate,
            transit_rate: self.data_metrics.transit_rate,
            router_capabilities: self.router_capabilities.deep_view(),
            external_addresses: self.external_addresses.deep_view(),
            router_count: self.router_count,
            floodfill_count: self.floodfill_count,
            leaseset_count: self.leaseset_count,
            client_tunnel_count: self.client_tunnel_count,
            transit_tunnel_count: self.transit_tunnel_count,
            service_statuses: self.service_statuses.deep_view(),
        }
    }
}

/// Everything the extractor set finds in one document.
pub open spec fn snapshot_spec(s: Seq<char>) -> SnapView {
    let dr = direction_spec("<b>Received:</b> "@, s);
    let ds = direction_spec("<b>Sent:</b> "@, s);
    let dt = direction_spec("<b>Transit:</b> "@, s);
    let nc = net_counts_spec(s);
    let tc = tunnel_counts_spec(s);
    SnapView {
        ipv4_status: status_spec("<b>Network status:</b> "@, s),
        ipv6_status: status_spec("<b>Network status v6:</b> "@, s),
        tunnel_creation_rate: percent_spec("<b>Tunnel creation success rate:</b> "@, s),
        received_bytes: dr.0,
        sent_bytes: ds.0,
        transit_bytes: dt.0,
        received_rate: dr.1,
        sent_rate: ds.1,
        transit_rate: dt.1,
        router_capabilities: caps_spec(s),
        external_addresses: ext_addr_spec(s),
        router_count: nc.0,
        floodfill_count: nc.1,
        leaseset_count: nc.2,
        client_tunnel_count: tc.0,
        transit_tunnel_count: tc.1,
        service_statuses: services_spec(s),
    }
}

/// Runs every extraction rule over the document and collects the results.
pub fn extract_snapshot(html: &str) -> (snap: Snapshot)
    ensures
        snap@ == snapshot_spec(html@),
{
    let s = to_chars(html);
    let (rb, rr) = direction_chars(&s, "<b>Received:</b> ");
    let (sb, sr) = direction_chars(&s, "<b>Sent:</b> ");
    let (tb, tr) = direction_chars(&s, "<b>Transit:</b> ");
    let (nr, nf, nl) = net_counts_chars(&s);
    let (ct, tt) = tunnel_counts_chars(&s);
    let snap = Snapshot {
        ipv4_status: status_chars(&s, "<b>Network status:</b> "),
        ipv6_status: status_chars(&s, "<b>Network status v6:</b> "),
        tunnel_creation_rate: percent_chars(&s, "<b>Tunnel creation success rate:</b> "),
        data_metrics: DataMetrics {
            received_bytes: rb,
            sent_bytes: sb,
            transit_bytes: tb,
            received_rate: rr,
            sent_rate: sr,
            transit_rate: tr,
        },
        router_capabilities: caps_chars(&s),
        external_addresses: ext_addrs_chars(&s),
        router_count: nr,
        floodfill_count: nf,
        leaseset_count: nl,
        client_tunnel_count: ct,
        transit_tunnel_count: tt,
        service_statuses: services_chars(&s),
    };
    proof {
        assert(snap@ =~= snapshot_spec(html@));
    }
    snap
}

// ---------------------------------------------------------------------------
// The extraction rules, each usable on its own
// ---------------------------------------------------------------------------

/// Network status text for IPv4 and IPv6, independently optional.
pub fn parse_network_status(html: &str) -> (r: (Option<String>, Option<String>))
    ensures
        r.0.deep_view() == status_spec("<b>Network status:</b> "@, html@),
        r.1.deep_view() == status_spec("<b>Network status v6:</b> "@, html@),
{
    let s = to_chars(html);
    (status_chars(&s, "<b>Network status:</b> "), status_chars(&s, "<b>Network status v6:</b> "))
}

/// Tunnel creation success percentage.
pub fn parse_tunnel_creation_rate(html: &str) -> (r: Option<u64>)
    ensures
        r == percent_spec("<b>Tunnel creation success rate:</b> "@, html@),
{
    let s = to_chars(html);
    percent_chars(&s, "<b>Tunnel creation success rate:</b> ")
}

/// Byte totals and rates for the received, sent and transit directions.
pub fn parse_data_metrics(html: &str) -> (r: DataMetrics)
    ensures
        r.received_bytes == direction_spec("<b>Received:</b> "@, html@).0,
        r.received_rate == direction_spec("<b>Received:</b> "@, html@).1,
        r.sent_bytes == direction_spec("<b>Sent:</b> "@, html@).0,
        r.sent_rate == direction_spec("<b>Sent:</b> "@, html@).1,
        r.transit_bytes == direction_spec("<b>Transit:</b> "@, html@).0,
        r.transit_rate == direction_spec("<b>Transit:</b> "@, html@).1,
{
    let s = to_chars(html);
    let (rb, rr) = direction_chars(&s, "<b>Received:</b> ");
    let (sb, sr) = direction_chars(&s, "<b>Sent:</b> ");
    let (tb, tr) = direction_chars(&s, "<b>Transit:</b> ");
    DataMetrics {
        received_bytes: rb,
        sent_bytes: sb,
        transit_bytes: tb,
        received_rate: rr,
        sent_rate: sr,
        transit_rate: tr,
    }
}

/// The router capability code.
pub fn parse_router_capabilities(html: &str) -> (r: Option<String>)
    ensures
        r.deep_view() == caps_spec(html@),
{
    let s = to_chars(html);
    caps_chars(&s)
}

/// All (protocol, address) rows of the external-address table, in order.
pub fn parse_external_addresses(html: &str) -> (r: Vec<(String, String)>)
    ensures
        r.deep_view() == ext_addr_spec(html@),
{
    let s = to_chars(html);
    ext_addrs_chars(&s)
}

/// Router, floodfill and leaseset counts: all absent unless their shared
/// line matches; each integer then parsed independently.
pub fn parse_network_counts(html: &str) -> (r: (Option<u64>, Option<u64>, Option<u64>))
    ensures
        r == net_counts_spec(html@),
{
    let s = to_chars(html);
    net_counts_chars(&s)
}

/// Client and transit tunnel counts, absent together when the line does not
/// match.
pub fn parse_tunnel_counts(html: &str) -> (r: (Option<u64>, Option<u64>))
    ensures
        r == tunnel_counts_spec(html@),
{
    let s = to_chars(html);
    tunnel_counts_chars(&s)
}

/// The normalized service-status mapping: unique keys, last row winning.
pub fn parse_service_statuses(html: &str) -> (r: Vec<(String, bool)>)
    ensures
        r.deep_view() == services_spec(html@),
{
    let s = to_chars(html);
    services_chars(&s)
}

} // verus!
