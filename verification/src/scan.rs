//! Byte-level scanning helpers shared by the line grammars.
//!
//! Every executable scanner here is proved equal to a spec-level scanner over
//! the input's byte sequence; the grammars in [`crate::parser`] are then
//! specified by composing the spec scanners.

use vstd::prelude::*;

verus! {

/// Horizontal tab.
pub const HT: u8 = 9;

/// Line feed.
pub const LF: u8 = 10;

/// Carriage return.
pub const CR: u8 = 13;

/// Space.
pub const SP: u8 = 32;

/// Double quote.
pub const QUOTE: u8 = 34;

/// Backslash.
pub const BSLASH: u8 = 92;

/// A space or a horizontal tab.
pub open spec fn is_space_byte(c: u8) -> bool {
    c == SP || c == HT
}

/// An ASCII decimal digit.
pub open spec fn is_digit_byte(c: u8) -> bool {
    48 <= c <= 57
}

/// A carriage return or a line feed.
pub open spec fn is_break_byte(c: u8) -> bool {
    c == CR || c == LF
}

/// First position at or after `i` that does not hold a space or tab.
pub open spec fn spec_skip_spaces(s: Seq<u8>, i: int) -> int
    decreases s.len() - i,
{
    if 0 <= i < s.len() && is_space_byte(s[i]) {
        spec_skip_spaces(s, i + 1)
    } else {
        i
    }
}

/// A space or tab stands at position `i`: the grammar's required
/// whitespace, as opposed to the optional runs that [`spec_skip_spaces`]
/// models.
pub open spec fn has_space_at(s: Seq<u8>, i: int) -> bool {
    0 <= i < s.len() && is_space_byte(s[i])
}

/// Reports whether a space or tab stands at position `i`.
pub fn space_at(s: &[u8], i: usize) -> (r: bool)
    ensures
        r == has_space_at(s@, i as int),
{
    i < s.len() && (s[i] == SP || s[i] == HT)
}

/// Advances over spaces and tabs.
pub fn skip_spaces(s: &[u8], i: usize) -> (j: usize)
    requires
        i <= s@.len(),
    ensures
        j == spec_skip_spaces(s@, i as int),
        i <= j <= s@.len(),
{
    let mut j = i;
    while j < s.len() && (s[j] == SP || s[j] == HT)
        invariant
            i <= j <= s@.len(),
            spec_skip_spaces(s@, i as int) == spec_skip_spaces(s@, j as int),
        decreases s@.len() - j,
    {
        j = j + 1;
    }
    j
}

/// First position at or after `i` that does not hold a digit.
pub open spec fn spec_scan_digits(s: Seq<u8>, i: int) -> int
    decreases s.len() - i,
{
    if 0 <= i < s.len() && is_digit_byte(s[i]) {
        spec_scan_digits(s, i + 1)
    } else {
        i
    }
}

pub proof fn lemma_scan_digits(s: Seq<u8>, i: int)
    requires
        0 <= i <= s.len(),
    ensures
        i <= spec_scan_digits(s, i) <= s.len(),
        forall|m: int| i <= m < spec_scan_digits(s, i) ==> is_digit_byte(#[trigger] s[m]),
        spec_scan_digits(s, i) < s.len() ==> !is_digit_byte(s[spec_scan_digits(s, i)]),
        spec_scan_digits(s, spec_scan_digits(s, i)) == spec_scan_digits(s, i),
    decreases s.len() - i,
{
    if i < s.len() && is_digit_byte(s[i]) {
        lemma_scan_digits(s, i + 1);
    }
}

/// Advances to the end of the digit run starting at `i`.
pub fn digits_end(s: &[u8], i: usize) -> (j: usize)
    requires
        i <= s@.len(),
    ensures
        j == spec_scan_digits(s@, i as int),
        i <= j <= s@.len(),
{
    let mut j = i;
    while j < s.len() && 48 <= s[j] && s[j] <= 57
        invariant
            i <= j <= s@.len(),
            spec_scan_digits(s@, i as int) == spec_scan_digits(s@, j as int),
        decreases s@.len() - j,
    {
        j = j + 1;
    }
    j
}

/// Value of the decimal digit run `s[i..j)`, most significant digit first.
pub open spec fn digits_value(s: Seq<u8>, i: int, j: int) -> int
    decreases j - i,
{
    if i < j {
        digits_value(s, i, j - 1) * 10 + (s[j - 1] - 48)
    } else {
        0
    }
}

/// Ten to the power `n`.
pub open spec fn pow10(n: nat) -> nat
    decreases n,
{
    if n == 0 {
        1
    } else {
        10 * pow10((n - 1) as nat)
    }
}

/// Value of the digit run `s[i..j)` appended to the digits of `base`.
pub open spec fn number_value(s: Seq<u8>, i: int, j: int, base: int) -> int {
    if i <= j {
        base * pow10((j - i) as nat) + digits_value(s, i, j)
    } else {
        base
    }
}

pub proof fn lemma_digits_value_nonneg(s: Seq<u8>, i: int, j: int)
    requires
        forall|m: int| i <= m < j ==> 48 <= #[trigger] s[m],
    ensures
        digits_value(s, i, j) >= 0,
    decreases j - i,
{
    if i < j {
        lemma_digits_value_nonneg(s, i, j - 1);
    }
}

pub proof fn lemma_pow10_pos(n: nat)
    ensures
        pow10(n) >= 1,
    decreases n,
{
    if n > 0 {
        lemma_pow10_pos((n - 1) as nat);
    }
}

/// Appending one digit multiplies the value by ten and adds the digit.
pub proof fn lemma_number_value_step(s: Seq<u8>, i: int, j: int, base: int)
    requires
        i <= j,
    ensures
        number_value(s, i, j + 1, base) == number_value(s, i, j, base) * 10 + (s[j] - 48),
{
    let n1 = pow10((j - i) as nat) as int;
    assert(pow10((j + 1 - i) as nat) == 10 * n1);
    assert(base * (10 * n1) == (base * n1) * 10) by (nonlinear_arith);
}

/// With a non-negative base and digit bytes, the value is non-negative.
pub proof fn lemma_number_value_nonneg(s: Seq<u8>, i: int, j: int, base: int)
    requires
        i <= j,
        base >= 0,
        forall|m: int| i <= m < j ==> 48 <= #[trigger] s[m],
    ensures
        number_value(s, i, j, base) >= 0,
{
    lemma_digits_value_nonneg(s, i, j);
    lemma_pow10_pos((j - i) as nat);
    let n1 = pow10((j - i) as nat) as int;
    assert(base * n1 >= 0) by (nonlinear_arith)
        requires
            base >= 0,
            n1 >= 0,
    ;
}

/// Appending further digits can only increase the value.
pub proof fn lemma_number_value_mono(s: Seq<u8>, i: int, j: int, k: int, base: int)
    requires
        i <= j <= k,
        base >= 0,
        forall|m: int| i <= m < k ==> 48 <= #[trigger] s[m],
    ensures
        number_value(s, i, k, base) >= number_value(s, i, j, base),
    decreases k - j,
{
    if j < k {
        lemma_number_value_mono(s, i, j, k - 1, base);
        lemma_number_value_step(s, i, k - 1, base);
        lemma_number_value_nonneg(s, i, k - 1, base);
    }
}

/// Reads the digit run starting at `i`, appended to `base`, reporting
/// overflow of `u64` as `None`.
pub fn scan_number(s: &[u8], i: usize, base: u64) -> (r: Option<(u64, usize)>)
    requires
        i <= s@.len(),
    ensures
        ({
            let e = spec_scan_digits(s@, i as int);
            match r {
                Some(p) => p.1 == e && i <= p.1 <= s@.len()
                    && p.0 == number_value(s@, i as int, e, base as int),
                None => number_value(s@, i as int, e, base as int) > u64::MAX,
            }
        }),
{
    proof {
        lemma_scan_digits(s@, i as int);
    }
    let ghost e = spec_scan_digits(s@, i as int);
    let mut acc: u64 = base;
    let mut j = i;
    proof {
        let z: nat = ((i as int) - (i as int)) as nat;
        assert(z == 0);
        assert(pow10(z) == 1);
        assert(digits_value(s@, i as int, i as int) == 0);
        assert(number_value(s@, i as int, i as int, base as int)
            == (base as int) * pow10(z) + digits_value(s@, i as int, i as int));
        assert(number_value(s@, i as int, i as int, base as int) == base);
    }
    while j < s.len() && 48 <= s[j] && s[j] <= 57
        invariant
            i <= j <= s@.len(),
            spec_scan_digits(s@, i as int) == spec_scan_digits(s@, j as int),
            e == spec_scan_digits(s@, i as int),
            j <= e,
            acc == number_value(s@, i as int, j as int, base as int),
        decreases s@.len() - j,
    {
        proof {
            assert(is_digit_byte(s@[j as int]));
            assert(spec_scan_digits(s@, j as int) == spec_scan_digits(s@, j + 1));
            lemma_scan_digits(s@, j + 1);
            lemma_scan_digits(s@, i as int);
        }
        let d: u8 = s[j] - 48;
        proof {
            lemma_number_value_step(s@, i as int, j as int, base as int);
        }
        if acc > (u64::MAX - d as u64) / 10 {
            proof {
                assert(number_value(s@, i as int, j + 1, base as int) == acc * 10 + d);
                assert(acc * 10 + d > u64::MAX);
                lemma_number_value_mono(s@, i as int, j + 1, e, base as int);
            }
            return None;
        }
        acc = acc * 10 + d as u64;
        proof {
            assert(acc == number_value(s@, i as int, j + 1, base as int));
        }
        j = j + 1;
    }
    Some((acc, j))
}

/// Reads a non-empty digit run as a `u32`; `None` on no digit or overflow.
pub fn scan_u32(s: &[u8], i: usize) -> (r: Option<(u32, usize)>)
    requires
        i <= s@.len(),
    ensures
        ({
            let e = spec_scan_digits(s@, i as int);
            match r {
                Some(p) => p.1 == e && i < e && i <= p.1 <= s@.len()
                    && p.0 == digits_value(s@, i as int, e)
                    && digits_value(s@, i as int, e) <= u32::MAX,
                None => e == i || digits_value(s@, i as int, e) > u32::MAX,
            }
        }),
{
    proof {
        lemma_scan_digits(s@, i as int);
    }
    match scan_number(s, i, 0) {
        None => None,
        Some((v, j)) => {
            if j == i {
                None
            } else if v > u32::MAX as u64 {
                None
            } else {
                Some((v as u32, j))
            }
        },
    }
}

/// Reads a non-empty digit run as a `usize`; `None` on no digit or overflow.
pub fn scan_usize(s: &[u8], i: usize) -> (r: Option<(usize, usize)>)
    requires
        i <= s@.len(),
    ensures
        ({
            let e = spec_scan_digits(s@, i as int);
            match r {
                Some(p) => p.1 == e && i < e && i <= p.1 <= s@.len()
                    && p.0 == digits_value(s@, i as int, e)
                    && digits_value(s@, i as int, e) <= usize::MAX,
                None => e == i || digits_value(s@, i as int, e) > usize::MAX,
            }
        }),
{
    proof {
        lemma_scan_digits(s@, i as int);
    }
    match scan_number(s, i, 0) {
        None => None,
        Some((v, j)) => {
            if j == i {
                None
            } else if v > usize::MAX as u64 {
                None
            } else {
                Some((v as usize, j))
            }
        },
    }
}

/// A line terminator at `i`: carriage return plus line feed, or either alone.
/// Returns the position after the terminator.
pub open spec fn spec_line_ending(s: Seq<u8>, i: int) -> Option<int> {
    if 0 <= i < s.len() && s[i] == CR && i + 1 < s.len() && s[i + 1] == LF {
        Some(i + 2)
    } else if 0 <= i < s.len() && is_break_byte(s[i]) {
        Some(i + 1)
    } else {
        None
    }
}

/// Consumes a line terminator.
pub fn scan_line_ending(s: &[u8], i: usize) -> (r: Option<usize>)
    requires
        i <= s@.len(),
    ensures
        match r {
            Some(j) => spec_line_ending(s@, i as int) == Some(j as int) && i < j <= s@.len(),
            None => spec_line_ending(s@, i as int) is None,
        },
{
    if i < s.len() && s[i] == CR && i + 1 < s.len() && s[i + 1] == LF {
        Some(i + 2)
    } else if i < s.len() && (s[i] == CR || s[i] == LF) {
        Some(i + 1)
    } else {
        None
    }
}

/// Position of the first carriage return or line feed at or after `i`, or
/// the input's length when there is none.
pub open spec fn spec_find_break(s: Seq<u8>, i: int) -> int
    decreases s.len() - i,
{
    if 0 <= i < s.len() {
        if is_break_byte(s[i]) {
            i
        } else {
            spec_find_break(s, i + 1)
        }
    } else {
        s.len() as int
    }
}

/// Finds the next line terminator byte.
pub fn find_break(s: &[u8], i: usize) -> (j: usize)
    requires
        i <= s@.len(),
    ensures
        j == spec_find_break(s@, i as int),
        i <= j <= s@.len(),
{
    let mut j = i;
    while j < s.len() && !(s[j] == CR || s[j] == LF)
        invariant
            i <= j <= s@.len(),
            spec_find_break(s@, i as int) == spec_find_break(s@, j as int),
        decreases s@.len() - j,
    {
        j = j + 1;
    }
    j
}

/// Position of the first space or tab at or after `i`, or the input's length.
pub open spec fn spec_find_space(s: Seq<u8>, i: int) -> int
    decreases s.len() - i,
{
    if 0 <= i < s.len() {
        if is_space_byte(s[i]) {
            i
        } else {
            spec_find_space(s, i + 1)
        }
    } else {
        s.len() as int
    }
}

/// Finds the next space or tab.
pub fn find_space(s: &[u8], i: usize) -> (j: usize)
    requires
        i <= s@.len(),
    ensures
        j == spec_find_space(s@, i as int),
        i <= j <= s@.len(),
{
    let mut j = i;
    while j < s.len() && !(s[j] == SP || s[j] == HT)
        invariant
            i <= j <= s@.len(),
            spec_find_space(s@, i as int) == spec_find_space(s@, j as int),
        decreases s@.len() - j,
    {
        j = j + 1;
    }
    j
}

/// Position of the first space, tab, carriage return or line feed at or
/// after `i`, or the input's length.
pub open spec fn spec_find_space_or_break(s: Seq<u8>, i: int) -> int
    decreases s.len() - i,
{
    if 0 <= i < s.len() {
        if is_space_byte(s[i]) || is_break_byte(s[i]) {
            i
        } else {
            spec_find_space_or_break(s, i + 1)
        }
    } else {
        s.len() as int
    }
}

/// Finds the next space, tab or line terminator byte.
pub fn find_space_or_break(s: &[u8], i: usize) -> (j: usize)
    requires
        i <= s@.len(),
    ensures
        j == spec_find_space_or_break(s@, i as int),
        i <= j <= s@.len(),
{
    let mut j = i;
    while j < s.len() && !(s[j] == SP || s[j] == HT || s[j] == CR || s[j] == LF)
        invariant
            i <= j <= s@.len(),
            spec_find_space_or_break(s@, i as int) == spec_find_space_or_break(s@, j as int),
        decreases s@.len() - j,
    {
        j = j + 1;
    }
    j
}

/// Copies `s[i..j)` into a fresh vector.
pub fn copy_range(s: &[u8], i: usize, j: usize) -> (r: Vec<u8>)
    requires
        i <= j <= s@.len(),
    ensures
        r@ == s@.subrange(i as int, j as int),
{
    let mut r: Vec<u8> = Vec::new();
    let mut k = i;
    while k < j
        invariant
            i <= k <= j <= s@.len(),
            r@ == s@.subrange(i as int, k as int),
        decreases j - k,
    {
        r.push(s[k]);
        proof {
            assert(r@ =~= s@.subrange(i as int, k + 1));
        }
        k = k + 1;
    }
    r
}

/// Body of a quoted string from position `i` (just after the opening quote):
/// the unescaped content gathered so far is `acc`.  `\\` and `\"` stand for a
/// backslash and a quote; the span ends at an unescaped quote.
pub open spec fn spec_quoted_body(s: Seq<u8>, i: int, acc: Seq<u8>) -> Option<(Seq<u8>, int)>
    decreases s.len() - i,
{
    if i < 0 || i >= s.len() {
        None
    } else if s[i] == QUOTE {
        Some((acc, i + 1))
    } else if s[i] == BSLASH {
        if i + 1 < s.len() && (s[i + 1] == BSLASH || s[i + 1] == QUOTE) {
            spec_quoted_body(s, i + 2, acc.push(s[i + 1]))
        } else {
            None
        }
    } else {
        spec_quoted_body(s, i + 1, acc.push(s[i]))
    }
}

/// A quoted string at `i`: opening quote, escaped body, closing quote.
/// Yields the unescaped content and the position after the closing quote.
pub open spec fn spec_quoted(s: Seq<u8>, i: int) -> Option<(Seq<u8>, int)> {
    if 0 <= i < s.len() && s[i] == QUOTE {
        spec_quoted_body(s, i + 1, Seq::empty())
    } else {
        None
    }
}

/// Reads a quoted string, unescaping its body.
pub fn scan_quoted(s: &[u8], i: usize) -> (r: Option<(Vec<u8>, usize)>)
    requires
        i <= s@.len(),
    ensures
        match r {
            Some(p) => spec_quoted(s@, i as int) == Some((p.0@, p.1 as int))
                && i < p.1 <= s@.len(),
            None => spec_quoted(s@, i as int) is None,
        },
{
    if !(i < s.len() && s[i] == QUOTE) {
        return None;
    }
    let mut acc: Vec<u8> = Vec::new();
    let mut j = i + 1;
    loop
        invariant
            i + 1 <= j <= s@.len(),
            spec_quoted(s@, i as int) == spec_quoted_body(s@, j as int, acc@),
        decreases s@.len() - j,
    {
        if j >= s.len() {
            return None;
        }
        let c = s[j];
        if c == QUOTE {
            return Some((acc, j + 1));
        } else if c == BSLASH {
            if j + 1 < s.len() && (s[j + 1] == BSLASH || s[j + 1] == QUOTE) {
                acc.push(s[j + 1]);
                j = j + 2;
            } else {
                return None;
            }
        } else {
            acc.push(c);
            j = j + 1;
        }
    }
}

} // verus!
