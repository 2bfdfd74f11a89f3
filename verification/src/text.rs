//! Pure text primitives of the command syntax: character classes, literal
//! substring occurrence, whitespace and digit runs, and decimal digit parsing.

use vstd::prelude::*;
use vstd::string::StrSliceExecFns;

verus! {

/// A decimal digit, `'0'` through `'9'`.
pub open spec fn is_digit_char(c: char) -> bool {
    48 <= c as u32 <= 57
}

/// The numeric value of a decimal digit character.
pub open spec fn digit_char_val(c: char) -> int {
    c as u32 - 48
}

/// Whitespace as the command syntax understands it: the characters with the
/// Unicode `White_Space` property.
pub open spec fn is_space_char(c: char) -> bool {
    let u = c as u32;
    ||| u == 0x9
    ||| u == 0xA
    ||| u == 0xB
    ||| u == 0xC
    ||| u == 0xD
    ||| u == 0x20
    ||| u == 0x85
    ||| u == 0xA0
    ||| u == 0x1680
    ||| (0x2000 <= u && u <= 0x200A)
    ||| u == 0x2028
    ||| u == 0x2029
    ||| u == 0x202F
    ||| u == 0x205F
    ||| u == 0x3000
}

pub fn is_digit(c: char) -> (r: bool)
    ensures
        r == is_digit_char(c),
{
    let u = c as u32;
    u >= 48 && u <= 57
}

pub fn is_space(c: char) -> (r: bool)
    ensures
        r == is_space_char(c),
{
    let u = c as u32;
    u == 0x9 || u == 0xA || u == 0xB || u == 0xC || u == 0xD || u == 0x20 || u == 0x85 || u == 0xA0
        || u == 0x1680 || (u >= 0x2000 && u <= 0x200A) || u == 0x2028 || u == 0x2029 || u == 0x202F
        || u == 0x205F || u == 0x3000
}

/// `pat` stands, character for character, at position `i` of `text`.
pub open spec fn occurs_at(text: Seq<char>, pat: Seq<char>, i: int) -> bool {
    &&& 0 <= i
    &&& i + pat.len() <= text.len()
    &&& pat == text.subrange(i, i + pat.len())
}

/// `pat` is a literal substring of `text`.
pub open spec fn text_contains(text: Seq<char>, pat: Seq<char>) -> bool {
    exists|i: int| occurs_at(text, pat, i)
}

/// Decides `occurs_at` at one position.
pub(crate) fn check_occurs_at(text: &str, n: usize, pat: &str, m: usize, i: usize) -> (r: bool)
    requires
        n == text@.len(),
        m == pat@.len(),
        i + m <= n,
    ensures
        r == occurs_at(text@, pat@, i as int),
{
    let mut k: usize = 0;
    while k < m
        invariant
            0 <= k <= m,
            i + m <= n,
            n == text@.len(),
            m == pat@.len(),
            forall|q: int| 0 <= q < k ==> pat@[q] == text@[i + q],
        decreases m - k,
    {
        if text.get_char(i + k) != pat.get_char(k) {
            proof {
                assert(text@.subrange(i as int, i + m)[k as int] == text@[i + k]);
            }
            return false;
        }
        k += 1;
    }
    proof {
        assert(pat@ =~= text@.subrange(i as int, i + m));
    }
    true
}

/// Decides literal substring containment.
pub fn contains_text(text: &str, pat: &str) -> (r: bool)
    ensures
        r == text_contains(text@, pat@),
{
    let n = text.unicode_len();
    let m = pat.unicode_len();
    if m == 0 {
        proof {
            assert(pat@ =~= text@.subrange(0, 0));
            assert(occurs_at(text@, pat@, 0));
        }
        return true;
    }
    if m <= n {
        let mut i: usize = 0;
        while i <= n - m
            invariant
                1 <= m <= n,
                i <= n - m + 1,
                n == text@.len(),
                m == pat@.len(),
                forall|j: int| 0 <= j < i ==> !occurs_at(text@, pat@, j),
            decreases n - m + 1 - i,
        {
            if check_occurs_at(text, n, pat, m, i) {
                return true;
            }
            i += 1;
        }
    }
    proof {
        assert(forall|j: int| !occurs_at(text@, pat@, j));
    }
    false
}

/// The end of the run of whitespace characters that starts at `from`:
/// the first position at or after `from` that is past the end of `text`
/// or holds a non-whitespace character.
pub open spec fn space_run_end(text: Seq<char>, from: int) -> int
    decreases text.len() - from,
{
    if from < 0 || from >= text.len() {
        from
    } else if is_space_char(text[from]) {
        space_run_end(text, from + 1)
    } else {
        from
    }
}

pub proof fn lemma_space_run_end(text: Seq<char>, from: int)
    requires
        0 <= from <= text.len(),
    ensures
        from <= space_run_end(text, from) <= text.len(),
        forall|k: int| from <= k < space_run_end(text, from) ==> is_space_char(text[k]),
        space_run_end(text, from) < text.len() ==> !is_space_char(text[space_run_end(text, from)]),
    decreases text.len() - from,
{
    if from < text.len() && is_space_char(text[from]) {
        lemma_space_run_end(text, from + 1);
    }
}

pub(crate) fn scan_spaces(text: &str, n: usize, from: usize) -> (r: usize)
    requires
        n == text@.len(),
        from <= n,
    ensures
        r == space_run_end(text@, from as int),
{
    let mut j: usize = from;
    while j < n && is_space(text.get_char(j))
        invariant
            from <= j <= n,
            n == text@.len(),
            space_run_end(text@, from as int) == space_run_end(text@, j as int),
        decreases n - j,
    {
        j += 1;
    }
    j
}

/// The end of the run of decimal digits that starts at `from`, in the manner
/// of [`space_run_end`].
pub open spec fn digit_run_end(text: Seq<char>, from: int) -> int
    decreases text.len() - from,
{
    if from < 0 || from >= text.len() {
        from
    } else if is_digit_char(text[from]) {
        digit_run_end(text, from + 1)
    } else {
        from
    }
}

pub proof fn lemma_digit_run_end(text: Seq<char>, from: int)
    requires
        0 <= from <= text.len(),
    ensures
        from <= digit_run_end(text, from) <= text.len(),
        forall|k: int| from <= k < digit_run_end(text, from) ==> is_digit_char(text[k]),
        digit_run_end(text, from) < text.len() ==> !is_digit_char(text[digit_run_end(text, from)]),
    decreases text.len() - from,
{
    if from < text.len() && is_digit_char(text[from]) {
        lemma_digit_run_end(text, from + 1);
    }
}

pub(crate) fn scan_digits(text: &str, n: usize, from: usize) -> (r: usize)
    requires
        n == text@.len(),
        from <= n,
    ensures
        r == digit_run_end(text@, from as int),
{
    let mut j: usize = from;
    while j < n && is_digit(text.get_char(j))
        invariant
            from <= j <= n,
            n == text@.len(),
            digit_run_end(text@, from as int) == digit_run_end(text@, j as int),
        decreases n - j,
    {
        j += 1;
    }
    j
}

/// The base-10 value of a run of digit characters.
pub open spec fn digits_value(s: Seq<char>) -> int
    decreases s.len(),
{
    if s.len() == 0 {
        0
    } else {
        digits_value(s.drop_last()) * 10 + digit_char_val(s.last())
    }
}

pub proof fn lemma_digits_value_nonneg(s: Seq<char>)
    requires
        forall|k: int| 0 <= k < s.len() ==> is_digit_char(s[k]),
    ensures
        digits_value(s) >= 0,
    decreases s.len(),
{
    if s.len() > 0 {
        lemma_digits_value_nonneg(s.drop_last());
    }
}

/// The value of a digit run never falls when the run is extended to the right.
pub proof fn lemma_digits_prefix_le(s: Seq<char>, i: int)
    requires
        0 <= i <= s.len(),
        forall|k: int| 0 <= k < s.len() ==> is_digit_char(s[k]),
    ensures
        digits_value(s.take(i)) <= digits_value(s),
    decreases s.len() - i,
{
    if i == s.len() {
        assert(s.take(i) =~= s);
    } else {
        lemma_digits_prefix_le(s, i + 1);
        assert(s.take(i + 1).drop_last() =~= s.take(i));
        assert(s.take(i + 1).last() == s[i]);
        assert(forall|k: int| 0 <= k < s.take(i).len() ==> is_digit_char(s.take(i)[k]));
        lemma_digits_value_nonneg(s.take(i));
    }
}

/// Parses the digit run `text[from..to]` as a base-10 number, refusing one
/// whose value does not fit a 32-bit signed integer.
pub(crate) fn parse_digits(text: &str, n: usize, from: usize, to: usize) -> (r: Option<i32>)
    requires
        n == text@.len(),
        from < to <= n,
        forall|k: int| from <= k < to ==> is_digit_char(text@[k]),
    ensures
        ({
            let v = digits_value(text@.subrange(from as int, to as int));
            match r {
                Some(x) => x as int == v && v <= i32::MAX,
                None => v > i32::MAX,
            }
        }),
{
    let ghost s = text@.subrange(from as int, to as int);
    let mut acc: u64 = 0;
    let mut j: usize = from;
    while j < to
        invariant
            from <= j <= to <= n,
            n == text@.len(),
            forall|k: int| from <= k < to ==> is_digit_char(text@[k]),
            s == text@.subrange(from as int, to as int),
            acc as int == digits_value(text@.subrange(from as int, j as int)),
            acc <= 0x7fff_ffff,
        decreases to - j,
    {
        let c = text.get_char(j);
        let u = c as u32;
        let d: u64 = u as u64 - 48;
        let t: u64 = acc * 10 + d;
        proof {
            let pre = text@.subrange(from as int, j as int);
            let cur = text@.subrange(from as int, j as int + 1);
            assert(cur.drop_last() =~= pre);
            assert(cur.last() == text@[j as int]);
            if t > 0x7fff_ffff {
                assert(forall|k: int| 0 <= k < s.len() ==> is_digit_char(s[k]));
                assert(cur =~= s.take(j as int + 1 - from));
                lemma_digits_prefix_le(s, j as int + 1 - from);
            }
        }
        if t > 0x7fff_ffff {
            return None;
        }
        acc = t;
        j += 1;
    }
    proof {
        assert(text@.subrange(from as int, j as int) =~= s);
    }
    Some(acc as i32)
}

} // verus!
