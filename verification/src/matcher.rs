//! The pattern matcher: recognition of the management-command syntax and
//! extraction of registered patterns and numeric amounts from raw text.
//!
//! Matching is leftmost and greedy. A registered pattern is always taken as a
//! literal substring, so text with syntactic meaning to a general matching
//! engine cannot leak into the amount grammar.

use vstd::prelude::*;
use vstd::string::StrSliceExecFns;
use vstd::string::StringExecFns;

use crate::errors::FormatError;
use crate::text::{
    check_occurs_at, digit_run_end, digits_value, is_digit, is_digit_char, is_space, is_space_char,
    lemma_digit_run_end, lemma_digits_value_nonneg, lemma_space_run_end, occurs_at, parse_digits,
    scan_digits, scan_spaces, space_run_end,
};

verus! {

/// The trigger word of the registration command.
pub open spec fn register_keyword() -> Seq<char> {
    "かぞえて"@
}

/// The trigger word of the overwrite command.
pub open spec fn overwrite_keyword() -> Seq<char> {
    "うわがき"@
}

/// The trigger word of the deletion command.
pub open spec fn delete_keyword() -> Seq<char> {
    "けして"@
}

pub fn register_keyword_str() -> (r: &'static str)
    ensures
        r@ == register_keyword(),
{
    "かぞえて"
}

pub fn overwrite_keyword_str() -> (r: &'static str)
    ensures
        r@ == overwrite_keyword(),
{
    "うわがき"
}

pub fn delete_keyword_str() -> (r: &'static str)
    ensures
        r@ == delete_keyword(),
{
    "けして"
}

/// The registration trigger word stands at `i` and a whitespace character
/// follows it directly.
pub open spec fn reg_candidate_at(text: Seq<char>, i: int) -> bool {
    &&& occurs_at(text, register_keyword(), i)
    &&& i + register_keyword().len() < text.len()
    &&& is_space_char(text[i + register_keyword().len()])
}

/// The position of the leftmost registration candidate at or after `from`.
pub open spec fn first_reg_candidate(text: Seq<char>, from: int) -> Option<int>
    decreases text.len() - from,
{
    if from < 0 || from >= text.len() {
        None
    } else if reg_candidate_at(text, from) {
        Some(from)
    } else {
        first_reg_candidate(text, from + 1)
    }
}

/// What registration extraction yields: the text after the leftmost
/// occurrence of the trigger word that a whitespace run of at least one
/// character follows, with that run skipped; nothing when no such occurrence
/// exists or nothing follows the run. Whitespace inside the yielded pattern
/// is preserved.
pub open spec fn reg_extract(text: Seq<char>) -> Option<Seq<char>> {
    match first_reg_candidate(text, 0) {
        None => None,
        Some(i) => {
            let j = space_run_end(text, i + register_keyword().len());
            if j < text.len() {
                Some(text.skip(j))
            } else {
                None
            }
        },
    }
}

/// Registration extraction over message text, as [`reg_extract`] states it.
pub fn extract_registration(content: &str) -> (r: Option<String>)
    ensures
        match r {
            Some(p) => reg_extract(content@) == Some(p@),
            None => reg_extract(content@) is None,
        },
{
    let n = content.unicode_len();
    let kw = register_keyword_str();
    let m = kw.unicode_len();
    let mut i: usize = 0;
    while i < n
        invariant
            i <= n,
            n == content@.len(),
            m == register_keyword().len(),
            kw@ == register_keyword(),
            first_reg_candidate(content@, 0) == first_reg_candidate(content@, i as int),
        decreases n - i,
    {
        let is_cand = m <= n && i < n - m && check_occurs_at(content, n, kw, m, i)
            && is_space(content.get_char(i + m));
        if is_cand {
            proof {
                assert(reg_candidate_at(content@, i as int));
            }
            let j = scan_spaces(content, n, i + m);
            proof {
                lemma_space_run_end(content@, i as int + m as int);
            }
            if j < n {
                let rest = content.substring_char(j, n);
                proof {
                    assert(content@.subrange(j as int, n as int) =~= content@.skip(j as int));
                }
                return Some(String::from_str(rest));
            } else {
                return None;
            }
        }
        proof {
            assert(!reg_candidate_at(content@, i as int));
        }
        i += 1;
    }
    None
}

/// After a run of zero or more whitespace characters starting at `a`, the
/// pattern stands.
pub open spec fn inc_tail_at(text: Seq<char>, pat: Seq<char>, a: int) -> bool
    decreases text.len() - a,
{
    if a < 0 {
        false
    } else if a >= text.len() {
        occurs_at(text, pat, a)
    } else if occurs_at(text, pat, a) {
        true
    } else {
        is_space_char(text[a]) && inc_tail_at(text, pat, a + 1)
    }
}

/// The increment amount syntax matches at `i`: a non-empty digit run starts
/// there, and after some of its digits, optional whitespace and then the
/// pattern follow.
pub open spec fn inc_match_at(text: Seq<char>, pat: Seq<char>, i: int) -> bool {
    &&& 0 <= i < text.len()
    &&& is_digit_char(text[i])
    &&& exists|a: int| i < a <= digit_run_end(text, i) && inc_tail_at(text, pat, a)
}

/// The position of the leftmost increment match at or after `from`.
pub open spec fn first_inc_match(text: Seq<char>, pat: Seq<char>, from: int) -> Option<int>
    decreases text.len() - from,
{
    if from < 0 || from >= text.len() {
        None
    } else if inc_match_at(text, pat, from) {
        Some(from)
    } else {
        first_inc_match(text, pat, from + 1)
    }
}

/// The greedy end of the captured digit run at `i`: the greatest `a` not
/// above the digit run's end for which the rest of the syntax completes.
pub open spec fn inc_capture_end(text: Seq<char>, pat: Seq<char>, i: int, a: int) -> int
    decreases a - i,
{
    if a <= i + 1 {
        i + 1
    } else if inc_tail_at(text, pat, a) {
        a
    } else {
        inc_capture_end(text, pat, i, a - 1)
    }
}

/// The digit run that the increment syntax captures, if it matches anywhere.
pub open spec fn inc_amount_digits(text: Seq<char>, pat: Seq<char>) -> Option<Seq<char>> {
    match first_inc_match(text, pat, 0) {
        None => None,
        Some(i) => Some(
            text.subrange(i, inc_capture_end(text, pat, i, digit_run_end(text, i))),
        ),
    }
}

/// Decides [`inc_tail_at`].
fn check_inc_tail(text: &str, n: usize, pat: &str, m: usize, a: usize) -> (r: bool)
    requires
        n == text@.len(),
        m == pat@.len(),
        a <= n,
    ensures
        r == inc_tail_at(text@, pat@, a as int),
{
    let mut b: usize = a;
    while b < n
        invariant
            a <= b <= n,
            n == text@.len(),
            m == pat@.len(),
            inc_tail_at(text@, pat@, a as int) == inc_tail_at(text@, pat@, b as int),
        decreases n - b,
    {
        if m <= n - b && check_occurs_at(text, n, pat, m, b) {
            return true;
        }
        if is_space(text.get_char(b)) {
            b += 1;
        } else {
            return false;
        }
    }
    if m == 0 {
        proof {
            assert(pat@ =~= text@.subrange(n as int, n as int));
            assert(occurs_at(text@, pat@, n as int));
        }
        true
    } else {
        false
    }
}

/// Decides the increment match at one position and yields the greedy end of
/// the captured digit run.
fn check_inc_at(text: &str, n: usize, pat: &str, m: usize, i: usize) -> (r: Option<usize>)
    requires
        n == text@.len(),
        m == pat@.len(),
        i < n,
    ensures
        match r {
            Some(a) => {
                &&& inc_match_at(text@, pat@, i as int)
                &&& i < a <= digit_run_end(text@, i as int) <= n
                &&& a as int == inc_capture_end(
                    text@,
                    pat@,
                    i as int,
                    digit_run_end(text@, i as int),
                )
            },
            None => !inc_match_at(text@, pat@, i as int),
        },
{
    if !is_digit(text.get_char(i)) {
        return None;
    }
    let dre = scan_digits(text, n, i);
    proof {
        lemma_digit_run_end(text@, i as int);
        assert(digit_run_end(text@, i as int) == digit_run_end(text@, i as int + 1));
        lemma_digit_run_end(text@, i as int + 1);
    }
    let mut a: usize = dre;
    while a > i + 1
        invariant
            i + 1 <= a <= dre <= n,
            n == text@.len(),
            m == pat@.len(),
            dre as int == digit_run_end(text@, i as int),
            inc_capture_end(text@, pat@, i as int, dre as int) == inc_capture_end(
                text@,
                pat@,
                i as int,
                a as int,
            ),
            forall|x: int| a < x <= dre ==> !inc_tail_at(text@, pat@, x),
        decreases a,
    {
        if check_inc_tail(text, n, pat, m, a) {
            return Some(a);
        }
        a -= 1;
    }
    if check_inc_tail(text, n, pat, m, a) {
        return Some(a);
    }
    proof {
        assert(forall|x: int| i < x <= dre ==> !inc_tail_at(text@, pat@, x));
    }
    None
}

/// Increment amount extraction: the captured digits' base-10 value, or `1`
/// when the syntax matches nowhere in the message; an error when the value
/// does not fit a 32-bit signed integer.
pub fn extract_increment(content: &str, pat: &str) -> (r: Result<i32, FormatError>)
    ensures
        ({
            match inc_amount_digits(content@, pat@) {
                None => r == Ok::<i32, FormatError>(1i32),
                Some(d) => {
                    &&& digits_value(d) <= i32::MAX ==> r == Ok::<i32, FormatError>(
                        digits_value(d) as i32,
                    )
                    &&& digits_value(d) > i32::MAX ==> r == Err::<i32, FormatError>(FormatError)
                },
            }
        }),
{
    let n = content.unicode_len();
    let m = pat.unicode_len();
    let mut i: usize = 0;
    while i < n
        invariant
            i <= n,
            n == content@.len(),
            m == pat@.len(),
            first_inc_match(content@, pat@, 0) == first_inc_match(content@, pat@, i as int),
        decreases n - i,
    {
        match check_inc_at(content, n, pat, m, i) {
            Some(a) => {
                proof {
                    lemma_digit_run_end(content@, i as int);
                }
                let v = parse_digits(content, n, i, a);
                match v {
                    Some(x) => {
                        return Ok(x);
                    },
                    None => {
                        return Err(FormatError);
                    },
                }
            },
            None => {},
        }
        i += 1;
    }
    Ok(1)
}

pub proof fn lemma_first_inc_match_some(text: Seq<char>, pat: Seq<char>, from: int)
    requires
        0 <= from,
        first_inc_match(text, pat, from) is Some,
    ensures
        ({
            let i = first_inc_match(text, pat, from)->Some_0;
            from <= i < text.len() && inc_match_at(text, pat, i)
        }),
    decreases text.len() - from,
{
    if from < text.len() && !inc_match_at(text, pat, from) {
        lemma_first_inc_match_some(text, pat, from + 1);
    }
}

/// The greedy capture end stays within the digit run and past its start.
pub proof fn lemma_inc_capture_end_bounds(text: Seq<char>, pat: Seq<char>, i: int, a: int)
    requires
        i + 1 <= a,
    ensures
        i + 1 <= inc_capture_end(text, pat, i, a) <= a,
    decreases a - i,
{
    if a > i + 1 && !inc_tail_at(text, pat, a) {
        lemma_inc_capture_end_bounds(text, pat, i, a - 1);
    }
}

/// A captured increment digit run is a non-empty run of digits, so its value
/// is non-negative.
pub proof fn lemma_inc_digits_facts(text: Seq<char>, pat: Seq<char>)
    ensures
        match inc_amount_digits(text, pat) {
            Some(d) => d.len() >= 1 && digits_value(d) >= 0,
            None => true,
        },
{
    if first_inc_match(text, pat, 0) is Some {
        let i = first_inc_match(text, pat, 0)->Some_0;
        lemma_first_inc_match_some(text, pat, 0);
        lemma_digit_run_end(text, i);
        assert(digit_run_end(text, i) == digit_run_end(text, i + 1));
        lemma_digit_run_end(text, i + 1);
        let dre = digit_run_end(text, i);
        lemma_inc_capture_end_bounds(text, pat, i, dre);
        let a = inc_capture_end(text, pat, i, dre);
        let d = text.subrange(i, a);
        assert(forall|k: int| 0 <= k < d.len() ==> is_digit_char(d[k]));
        lemma_digits_value_nonneg(d);
    }
}

/// The overwrite amount syntax matches at `i`: the pattern stands there,
/// followed by at least one whitespace character and then a digit.
pub open spec fn ow_match_at(text: Seq<char>, pat: Seq<char>, i: int) -> bool {
    &&& occurs_at(text, pat, i)
    &&& ({
        let w = space_run_end(text, i + pat.len());
        &&& w > i + pat.len()
        &&& w < text.len()
        &&& is_digit_char(text[w])
    })
}

/// The position of the leftmost overwrite match at or after `from`.
pub open spec fn first_ow_match(text: Seq<char>, pat: Seq<char>, from: int) -> Option<int>
    decreases text.len() - from,
{
    if from < 0 || from >= text.len() {
        None
    } else if ow_match_at(text, pat, from) {
        Some(from)
    } else {
        first_ow_match(text, pat, from + 1)
    }
}

/// The digit run that the overwrite syntax captures, if it matches anywhere:
/// the whole digit run after the whitespace that follows the pattern.
pub open spec fn ow_amount_digits(text: Seq<char>, pat: Seq<char>) -> Option<Seq<char>> {
    match first_ow_match(text, pat, 0) {
        None => None,
        Some(i) => {
            let w = space_run_end(text, i + pat.len());
            Some(text.subrange(w, digit_run_end(text, w)))
        },
    }
}

pub proof fn lemma_first_ow_match_some(text: Seq<char>, pat: Seq<char>, from: int)
    requires
        0 <= from,
        first_ow_match(text, pat, from) is Some,
    ensures
        ({
            let i = first_ow_match(text, pat, from)->Some_0;
            from <= i < text.len() && ow_match_at(text, pat, i)
        }),
    decreases text.len() - from,
{
    if from < text.len() && !ow_match_at(text, pat, from) {
        lemma_first_ow_match_some(text, pat, from + 1);
    }
}

/// A captured overwrite digit run is a non-empty run of digits, so its value
/// is non-negative.
pub proof fn lemma_ow_digits_facts(text: Seq<char>, pat: Seq<char>)
    ensures
        match ow_amount_digits(text, pat) {
            Some(d) => d.len() >= 1 && digits_value(d) >= 0,
            None => true,
        },
{
    if first_ow_match(text, pat, 0) is Some {
        let i = first_ow_match(text, pat, 0)->Some_0;
        lemma_first_ow_match_some(text, pat, 0);
        let w = space_run_end(text, i + pat.len() as int);
        lemma_space_run_end(text, i + pat.len() as int);
        lemma_digit_run_end(text, w);
        assert(digit_run_end(text, w) == digit_run_end(text, w + 1));
        lemma_digit_run_end(text, w + 1);
        let d = text.subrange(w, digit_run_end(text, w));
        assert(forall|k: int| 0 <= k < d.len() ==> is_digit_char(d[k]));
        lemma_digits_value_nonneg(d);
    }
}

/// Overwrite amount extraction: the captured digits' base-10 value, nothing
/// when the syntax matches nowhere (there is no default for overwrite), an
/// error when the value does not fit a 32-bit signed integer.
pub fn extract_overwrite(content: &str, pat: &str) -> (r: Result<Option<i32>, FormatError>)
    ensures
        ({
            match ow_amount_digits(content@, pat@) {
                None => r == Ok::<Option<i32>, FormatError>(None),
                Some(d) => {
                    &&& digits_value(d) <= i32::MAX ==> r == Ok::<Option<i32>, FormatError>(
                        Some(digits_value(d) as i32),
                    )
                    &&& digits_value(d) > i32::MAX ==> r == Err::<Option<i32>, FormatError>(
                        FormatError,
                    )
                },
            }
        }),
{
    let n = content.unicode_len();
    let m = pat.unicode_len();
    let mut i: usize = 0;
    while i < n
        invariant
            i <= n,
            n == content@.len(),
            m == pat@.len(),
            first_ow_match(content@, pat@, 0) == first_ow_match(content@, pat@, i as int),
        decreases n - i,
    {
        let found = m <= n - i && check_occurs_at(content, n, pat, m, i);
        if found {
            let w = scan_spaces(content, n, i + m);
            proof {
                lemma_space_run_end(content@, i as int + m as int);
            }
            if w > i + m && w < n && is_digit(content.get_char(w)) {
                proof {
                    assert(ow_match_at(content@, pat@, i as int));
                }
                let e = scan_digits(content, n, w);
                proof {
                    lemma_digit_run_end(content@, w as int);
                    assert(digit_run_end(content@, w as int) == digit_run_end(
                        content@,
                        w as int + 1,
                    ));
                    lemma_digit_run_end(content@, w as int + 1);
                }
                let v = parse_digits(content, n, w, e);
                match v {
                    Some(x) => {
                        return Ok(Some(x));
                    },
                    None => {
                        return Err(FormatError);
                    },
                }
            }
        }
        proof {
            assert(!ow_match_at(content@, pat@, i as int));
        }
        i += 1;
    }
    Ok(None)
}

} // verus!
