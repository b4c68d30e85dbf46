//! The DBC line grammars.
//!
//! Each recognised line shape has a spec-level grammar function over the
//! input's byte sequence and an executable parser proved equal to it.  The
//! dispatcher [`entry`] tries the grammars in a fixed priority order and
//! falls back to an [`Entry::Unknown`] record holding the raw line; it fails
//! only when the input holds no line terminator at all.

use crate::dbc::{
    BusConfiguration, Entry, EntryView, MessageAttribute, MessageAttributeView,
    MessageDefinition, MessageDefinitionView, MessageDescription, MessageDescriptionView,
    ParseEntryError, SignalAttribute, SignalAttributeView, SignalDefinition,
    SignalDefinitionView, SignalDescription, SignalDescriptionView, Version, VersionView,
};
use crate::decimal::Decimal;
use crate::scan::{
    copy_range, digits_end, digits_value, find_break, find_space, find_space_or_break,
    has_space_at, lemma_digits_value_nonneg, lemma_number_value_mono, lemma_scan_digits,
    number_value, pow10, scan_line_ending, scan_number, scan_quoted, scan_u32, scan_usize,
    skip_spaces, space_at,
    spec_find_break, spec_find_space, spec_find_space_or_break, spec_line_ending, spec_quoted,
    spec_scan_digits, spec_skip_spaces, SP,
};
use vstd::prelude::*;

verus! {

/// Colon.
pub const COLON: u8 = 58;

/// Semicolon.
pub const SEMI: u8 = 59;

/// Vertical bar.
pub const PIPE: u8 = 124;

/// Commercial at.
pub const AT: u8 = 64;

/// Plus sign.
pub const PLUS: u8 = 43;

/// Minus sign.
pub const MINUS: u8 = 45;

/// Full stop.
pub const DOT: u8 = 46;

/// Comma.
pub const COMMA: u8 = 44;

/// Left parenthesis.
pub const LPAREN: u8 = 40;

/// Right parenthesis.
pub const RPAREN: u8 = 41;

/// Left square bracket.
pub const LBRACK: u8 = 91;

/// Right square bracket.
pub const RBRACK: u8 = 93;

/// Lower-case e.
pub const LC_E: u8 = 101;

/// Upper-case E.
pub const UC_E: u8 = 69;

/// An ASCII letter, digit or underscore.
pub open spec fn is_alnum_extended_byte(c: u8) -> bool {
    (48 <= c <= 57) || (65 <= c <= 90) || (97 <= c <= 122) || c == 95
}

/// Reports whether a byte may appear in a message name token.
pub fn is_alphanumeric_extended(c: u8) -> (r: bool)
    ensures
        r == is_alnum_extended_byte(c),
{
    (48 <= c && c <= 57) || (65 <= c && c <= 90) || (97 <= c && c <= 122) || c == 95
}

/// First position at or after `i` whose byte is not a letter, digit or
/// underscore.
pub open spec fn spec_scan_alnum(s: Seq<u8>, i: int) -> int
    decreases s.len() - i,
{
    if 0 <= i < s.len() && is_alnum_extended_byte(s[i]) {
        spec_scan_alnum(s, i + 1)
    } else {
        i
    }
}

/// Advances over letters, digits and underscores.
pub fn alnum_end(s: &[u8], i: usize) -> (j: usize)
    requires
        i <= s@.len(),
    ensures
        j == spec_scan_alnum(s@, i as int),
        i <= j <= s@.len(),
{
    let mut j = i;
    while j < s.len() && is_alphanumeric_extended(s[j])
        invariant
            i <= j <= s@.len(),
            spec_scan_alnum(s@, i as int) == spec_scan_alnum(s@, j as int),
        decreases s@.len() - j,
    {
        j = j + 1;
    }
    j
}

/// The three bytes `a b c` stand at position `i`.
pub open spec fn kw3_at(s: Seq<u8>, i: int, a: u8, b: u8, c: u8) -> bool {
    0 <= i && i + 3 <= s.len() && s[i] == a && s[i + 1] == b && s[i + 2] == c
}

/// Checks a three-byte keyword at position `i`, yielding the position after
/// it.
pub fn kw3(s: &[u8], i: usize, a: u8, b: u8, c: u8) -> (r: Option<usize>)
    requires
        i <= s@.len(),
    ensures
        match r {
            Some(j) => kw3_at(s@, i as int, a, b, c) && j == i + 3 && j <= s@.len(),
            None => !kw3_at(s@, i as int, a, b, c),
        },
{
    if s.len() - i >= 3 && s[i] == a && s[i + 1] == b && s[i + 2] == c {
        Some(i + 3)
    } else {
        None
    }
}

/// Outcome of looking for an exponent marker inside a decimal number.
pub enum ExpScan {
    /// No usable exponent follows; nothing is consumed.
    Absent,
    /// An exponent follows but its digits do not fit the grammar's bounds.
    Bad,
    /// An exponent with the given signed value, ending at the given position.
    Value(int, int),
}

/// An optional exponent part at `i`: `e` or `E`, an optional sign, then
/// digits.  A marker without digits is not consumed.  A written exponent
/// whose magnitude exceeds `i32::MAX` is out of the grammar's bounds.
pub open spec fn spec_exponent(s: Seq<u8>, i: int) -> ExpScan {
    if 0 <= i < s.len() && (s[i] == LC_E || s[i] == UC_E) {
        let j = i + 1;
        let negx = j < s.len() && s[j] == MINUS;
        let j1 = if j < s.len() && (s[j] == MINUS || s[j] == PLUS) {
            j + 1
        } else {
            j
        };
        let je = spec_scan_digits(s, j1);
        if je == j1 {
            ExpScan::Absent
        } else if digits_value(s, j1, je) > i32::MAX {
            ExpScan::Bad
        } else if negx {
            ExpScan::Value(-digits_value(s, j1, je), je)
        } else {
            ExpScan::Value(digits_value(s, j1, je), je)
        }
    } else {
        ExpScan::Absent
    }
}

/// A decimal number at `i`: an optional sign, digits with an optional
/// fractional part (at least one digit overall, as `12`, `12.`, `12.5` or
/// `.5`), and an optional exponent.  The mantissa is the written digits with
/// the point removed and must fit `u64`; the exponent, after subtracting the
/// count of fractional digits, must fit `i32`.
pub open spec fn spec_decimal(s: Seq<u8>, i: int) -> Option<(Decimal, int)> {
    if i < 0 || i > s.len() {
        None
    } else {
        let neg = i < s.len() && s[i] == MINUS;
        let i1 = if i < s.len() && (s[i] == MINUS || s[i] == PLUS) {
            i + 1
        } else {
            i
        };
        let e1 = spec_scan_digits(s, i1);
        if e1 == i1 {
            if e1 < s.len() && s[e1] == DOT {
                let fi = e1 + 1;
                let fe = spec_scan_digits(s, fi);
                if fe == fi {
                    None
                } else {
                    spec_decimal_tail(s, neg, i1, e1, fi, fe)
                }
            } else {
                None
            }
        } else {
            if e1 < s.len() && s[e1] == DOT {
                let fi = e1 + 1;
                let fe = spec_scan_digits(s, fi);
                spec_decimal_tail(s, neg, i1, e1, fi, fe)
            } else {
                spec_decimal_tail(s, neg, i1, e1, e1, e1)
            }
        }
    }
}

/// The mantissa and exponent of a decimal whose integer digits are
/// `s[i1..e1)` and fractional digits `s[fi..fe)`.
pub open spec fn spec_decimal_tail(
    s: Seq<u8>,
    neg: bool,
    i1: int,
    e1: int,
    fi: int,
    fe: int,
) -> Option<(Decimal, int)> {
    let mant = number_value(s, fi, fe, digits_value(s, i1, e1));
    if mant > u64::MAX {
        None
    } else {
        match spec_exponent(s, fe) {
            ExpScan::Bad => None,
            ExpScan::Absent => spec_decimal_finish(neg, mant, 0, fe - fi, fe),
            ExpScan::Value(v, end) => spec_decimal_finish(neg, mant, v, fe - fi, end),
        }
    }
}

/// Applies the fractional-digit count to the written exponent and checks the
/// `i32` range.
pub open spec fn spec_decimal_finish(
    neg: bool,
    mant: int,
    written_exp: int,
    frac_len: int,
    end: int,
) -> Option<(Decimal, int)> {
    let total = written_exp - frac_len;
    if total < i32::MIN || total > i32::MAX {
        None
    } else {
        Some(
            (
                Decimal {
                    negative: neg,
                    mantissa: mant as u64,
                    exponent: total as i32,
                },
                end,
            ),
        )
    }
}

/// Reads a decimal number.
#[verifier::rlimit(60)]
pub fn scan_decimal(s: &[u8], i: usize) -> (r: Option<(Decimal, usize)>)
    requires
        i <= s@.len(),
    ensures
        match r {
            Some(p) => spec_decimal(s@, i as int) == Some((p.0, p.1 as int)) && i < p.1
                <= s@.len(),
            None => spec_decimal(s@, i as int) is None,
        },
{
    let mut neg = false;
    let mut i1 = i;
    if i < s.len() && (s[i] == MINUS || s[i] == PLUS) {
        neg = s[i] == MINUS;
        i1 = i + 1;
    }
    let e1 = digits_end(s, i1);
    let mut fi = e1;
    let mut fe = e1;
    if e1 == i1 {
        if !(e1 < s.len() && s[e1] == DOT) {
            return None;
        }
        fi = e1 + 1;
        fe = digits_end(s, fi);
        if fe == fi {
            return None;
        }
    } else {
        if e1 < s.len() && s[e1] == DOT {
            fi = e1 + 1;
            fe = digits_end(s, fi);
        }
    }
    proof {
        lemma_scan_digits(s@, i1 as int);
        lemma_scan_digits(s@, fi as int);
        lemma_digits_value_nonneg(s@, i1 as int, e1 as int);
        assert(fe == spec_scan_digits(s@, fi as int));
        assert(digits_value(s@, fi as int, fi as int) == 0);
        assert(pow10(0) == 1);
    }
    let ghost z1: nat = ((e1 as int) - (i1 as int)) as nat;
    proof {
        assert(0 * pow10(z1) == 0) by (nonlinear_arith);
    }
    let int_part = match scan_number(s, i1, 0) {
        None => {
            proof {
                let dv = digits_value(s@, i1 as int, e1 as int);
                let z1: nat = ((e1 as int) - (i1 as int)) as nat;
                assert(0 * pow10(z1) == 0) by (nonlinear_arith);
                assert(number_value(s@, i1 as int, e1 as int, 0) == dv);
                let z: nat = ((fi as int) - (fi as int)) as nat;
                assert(z == 0);
                assert(pow10(z) == 1);
                assert(number_value(s@, fi as int, fi as int, dv) == dv);
                lemma_number_value_mono(s@, fi as int, fi as int, fe as int, dv);
            }
            return None;
        },
        Some(p) => p.0,
    };
    proof {
        assert(number_value(s@, i1 as int, e1 as int, 0)
            == digits_value(s@, i1 as int, e1 as int));
    }
    let mant = match scan_number(s, fi, int_part) {
        None => {
            return None;
        },
        Some(p) => p.0,
    };
    // Optional exponent.
    let ghost frac_len = fe - fi;
    let mut written_exp: i64 = 0;
    let mut end = fe;
    if fe < s.len() && (s[fe] == LC_E || s[fe] == UC_E) {
        let j = fe + 1;
        let mut negx = false;
        let mut j1 = j;
        if j < s.len() && (s[j] == MINUS || s[j] == PLUS) {
            negx = s[j] == MINUS;
            j1 = j + 1;
        }
        let je = digits_end(s, j1);
        if je != j1 {
            proof {
                lemma_scan_digits(s@, j1 as int);
                lemma_digits_value_nonneg(s@, j1 as int, je as int);
                assert(pow10(0) == 1);
            }
            let ev = match scan_number(s, j1, 0) {
                None => {
                    return None;
                },
                Some(p) => p.0,
            };
            if ev > i32::MAX as u64 {
                return None;
            }
            written_exp = if negx {
                -(ev as i64)
            } else {
                ev as i64
            };
            end = je;
        }
    }
    // Range of the final exponent.
    if fe - fi > u32::MAX as usize {
        proof {
            assert(written_exp - frac_len < i32::MIN);
        }
        return None;
    }
    let total: i64 = written_exp - (fe - fi) as i64;
    if total < i32::MIN as i64 || total > i32::MAX as i64 {
        return None;
    }
    Some((Decimal { negative: neg, mantissa: mant, exponent: total as i32 }, end))
}

} // verus!

verus! {

/// A `VERSION` line: the keyword, one space, a quoted string, a terminator.
pub open spec fn spec_version(s: Seq<u8>) -> Option<(Seq<u8>, int)> {
    if s.len() >= 8 && s[0] == 86 && s[1] == 69 && s[2] == 82 && s[3] == 83 && s[4] == 73
        && s[5] == 79 && s[6] == 78 && s[7] == SP {
        match spec_quoted(s, 8) {
            Some(q) => match spec_line_ending(s, q.1) {
                Some(end) => Some((q.0, end)),
                None => None,
            },
            None => None,
        }
    } else {
        None
    }
}

/// Parses a `VERSION` line.
pub fn version(input: &[u8]) -> (r: Option<(Version, usize)>)
    ensures
        match r {
            Some(p) => spec_version(input@) == Some((p.0@.text, p.1 as int)) && 0 < p.1
                <= input@.len(),
            None => spec_version(input@) is None,
        },
{
    let s = input;
    if !(s.len() >= 8 && s[0] == 86 && s[1] == 69 && s[2] == 82 && s[3] == 83 && s[4] == 73
        && s[5] == 79 && s[6] == 78 && s[7] == SP) {
        return None;
    }
    match scan_quoted(s, 8) {
        None => None,
        Some((text, j)) => match scan_line_ending(s, j) {
            None => None,
            Some(end) => Some((Version(text), end)),
        },
    }
}

/// A `BS_:` line: the keyword, one space, a decimal integer filling the rest
/// of the line, a terminator.
pub open spec fn spec_bus_configuration(s: Seq<u8>) -> Option<(u32, int)> {
    if s.len() >= 5 && s[0] == 66 && s[1] == 83 && s[2] == 95 && s[3] == COLON && s[4] == SP {
        let j = spec_find_break(s, 5);
        let e = spec_scan_digits(s, 5);
        if j < s.len() && e == j && e > 5 && digits_value(s, 5, j) <= u32::MAX {
            match spec_line_ending(s, j) {
                Some(end) => Some((digits_value(s, 5, j) as u32, end)),
                None => None,
            }
        } else {
            None
        }
    } else {
        None
    }
}

/// Parses a `BS_:` line.
pub fn bus_configuration(input: &[u8]) -> (r: Option<(BusConfiguration, usize)>)
    ensures
        match r {
            Some(p) => spec_bus_configuration(input@) == Some((p.0.0, p.1 as int)) && 0 < p.1
                <= input@.len(),
            None => spec_bus_configuration(input@) is None,
        },
{
    let s = input;
    if !(s.len() >= 5 && s[0] == 66 && s[1] == 83 && s[2] == 95 && s[3] == COLON
        && s[4] == SP) {
        return None;
    }
    let j = find_break(s, 5);
    if j >= s.len() {
        return None;
    }
    match scan_u32(s, 5) {
        None => None,
        Some((v, e)) => {
            if e != j {
                return None;
            }
            match scan_line_ending(s, j) {
                None => None,
                Some(end) => Some((BusConfiguration(v), end)),
            }
        },
    }
}

/// A `BO_` line: keyword, id, name token, colon, byte length, sending node,
/// a terminator.
pub open spec fn spec_message_definition(s: Seq<u8>) -> Option<(MessageDefinitionView, int)> {
    if !kw3_at(s, 0, 66, 79, 95) {
        None
    } else {
        let i1 = spec_skip_spaces(s, 3);
        let e1 = spec_scan_digits(s, i1);
        if !has_space_at(s, 3) || e1 == i1 || digits_value(s, i1, e1) > u32::MAX {
            None
        } else {
            let n_i = spec_skip_spaces(s, e1);
            let n_e = spec_scan_alnum(s, n_i);
            let c_i = spec_skip_spaces(s, n_e);
            if !has_space_at(s, e1) || !(c_i < s.len() && s[c_i] == COLON) {
                None
            } else {
                let l_i = spec_skip_spaces(s, c_i + 1);
                let l_e = spec_scan_digits(s, l_i);
                if !has_space_at(s, c_i + 1) || l_e == l_i || digits_value(s, l_i, l_e)
                    > u32::MAX {
                    None
                } else {
                    let sn_i = spec_skip_spaces(s, l_e);
                    let sn_e = spec_find_space_or_break(s, sn_i);
                    if !has_space_at(s, l_e) || sn_e >= s.len() {
                        None
                    } else {
                        let t_i = spec_skip_spaces(s, sn_e);
                        match spec_line_ending(s, t_i) {
                            Some(end) => Some(
                                (
                                    MessageDefinitionView {
                                        id: digits_value(s, i1, e1) as u32,
                                        name: s.subrange(n_i, n_e),
                                        message_len: digits_value(s, l_i, l_e) as u32,
                                        sending_node: s.subrange(sn_i, sn_e),
                                    },
                                    end,
                                ),
                            ),
                            None => None,
                        }
                    }
                }
            }
        }
    }
}

/// Parses a `BO_` message definition line.
pub fn message_definition(input: &[u8]) -> (r: Option<(MessageDefinition, usize)>)
    ensures
        match r {
            Some(p) => spec_message_definition(input@) == Some((p.0@, p.1 as int)) && 0 < p.1
                <= input@.len(),
            None => spec_message_definition(input@) is None,
        },
{
    let s = input;
    let k0 = match kw3(s, 0, 66, 79, 95) {
        None => {
            return None;
        },
        Some(j) => j,
    };
    if !space_at(s, k0) {
        return None;
    }
    let i1 = skip_spaces(s, k0);
    let (id, e1) = match scan_u32(s, i1) {
        None => {
            return None;
        },
        Some(p) => p,
    };
    if !space_at(s, e1) {
        return None;
    }
    let n_i = skip_spaces(s, e1);
    let n_e = alnum_end(s, n_i);
    let c_i = skip_spaces(s, n_e);
    if !(c_i < s.len() && s[c_i] == COLON) {
        return None;
    }
    if !space_at(s, c_i + 1) {
        return None;
    }
    let l_i = skip_spaces(s, c_i + 1);
    let (len_v, l_e) = match scan_u32(s, l_i) {
        None => {
            return None;
        },
        Some(p) => p,
    };
    if !space_at(s, l_e) {
        return None;
    }
    let sn_i = skip_spaces(s, l_e);
    let sn_e = find_space_or_break(s, sn_i);
    if sn_e >= s.len() {
        return None;
    }
    let t_i = skip_spaces(s, sn_e);
    match scan_line_ending(s, t_i) {
        None => None,
        Some(end) => {
            let name = copy_range(s, n_i, n_e);
            let sending_node = copy_range(s, sn_i, sn_e);
            Some((MessageDefinition { id, name, message_len: len_v, sending_node }, end))
        },
    }
}

/// A `CM_ BO_` line: the two keywords, an id, a quoted description, a
/// semicolon, a terminator.
pub open spec fn spec_message_description(s: Seq<u8>) -> Option<(MessageDescriptionView, int)> {
    if !kw3_at(s, 0, 67, 77, 95) {
        None
    } else {
        let i1 = spec_skip_spaces(s, 3);
        if !has_space_at(s, 3) || !kw3_at(s, i1, 66, 79, 95) {
            None
        } else {
            let i2 = spec_skip_spaces(s, i1 + 3);
            let e = spec_scan_digits(s, i2);
            if !has_space_at(s, i1 + 3) || e == i2 || digits_value(s, i2, e) > u32::MAX
                || !has_space_at(s, e) {
                None
            } else {
                let q_i = spec_skip_spaces(s, e);
                match spec_quoted(s, q_i) {
                    None => None,
                    Some(q) => {
                        if !(q.1 < s.len() && s[q.1] == SEMI) {
                            None
                        } else {
                            match spec_line_ending(s, q.1 + 1) {
                                Some(end) => Some(
                                    (
                                        MessageDescriptionView {
                                            id: digits_value(s, i2, e) as u32,
                                            signal_name: Seq::empty(),
                                            description: q.0,
                                        },
                                        end,
                                    ),
                                ),
                                None => None,
                            }
                        }
                    },
                }
            }
        }
    }
}

/// Parses a `CM_ BO_` message description line.
pub fn message_description(input: &[u8]) -> (r: Option<(MessageDescription, usize)>)
    ensures
        match r {
            Some(p) => spec_message_description(input@) == Some((p.0@, p.1 as int)) && 0 < p.1
                <= input@.len(),
            None => spec_message_description(input@) is None,
        },
{
    let s = input;
    let k0 = match kw3(s, 0, 67, 77, 95) {
        None => {
            return None;
        },
        Some(j) => j,
    };
    if !space_at(s, k0) {
        return None;
    }
    let i1 = skip_spaces(s, k0);
    let k1 = match kw3(s, i1, 66, 79, 95) {
        None => {
            return None;
        },
        Some(j) => j,
    };
    if !space_at(s, k1) {
        return None;
    }
    let i2 = skip_spaces(s, k1);
    let (id, e) = match scan_u32(s, i2) {
        None => {
            return None;
        },
        Some(p) => p,
    };
    if !space_at(s, e) {
        return None;
    }
    let q_i = skip_spaces(s, e);
    match scan_quoted(s, q_i) {
        None => None,
        Some((description, j)) => {
            if !(j < s.len() && s[j] == SEMI) {
                return None;
            }
            match scan_line_ending(s, j + 1) {
                None => None,
                Some(end) => Some(
                    (
                        MessageDescription { id, signal_name: Vec::new(), description },
                        end,
                    ),
                ),
            }
        },
    }
}

/// A `BA_ ... BO_` line: keyword, quoted attribute name, keyword, id, a
/// digit run kept as text, a semicolon, a terminator.
pub open spec fn spec_message_attribute(s: Seq<u8>) -> Option<(MessageAttributeView, int)> {
    if !kw3_at(s, 0, 66, 65, 95) {
        None
    } else {
        let i1 = spec_skip_spaces(s, 3);
        match spec_quoted(s, i1) {
            None => None,
            Some(q) => {
                let i2 = spec_skip_spaces(s, q.1);
                if !has_space_at(s, 3) || !has_space_at(s, q.1) || !kw3_at(
                    s,
                    i2,
                    66,
                    79,
                    95,
                ) {
                    None
                } else {
                    let i3 = spec_skip_spaces(s, i2 + 3);
                    let e = spec_scan_digits(s, i3);
                    if !has_space_at(s, i2 + 3) || e == i3 || digits_value(s, i3, e)
                        > u32::MAX || !has_space_at(s, e) {
                        None
                    } else {
                        let v_i = spec_skip_spaces(s, e);
                        let v_e = spec_scan_digits(s, v_i);
                        if v_e == v_i || !(v_e < s.len() && s[v_e] == SEMI) {
                            None
                        } else {
                            match spec_line_ending(s, v_e + 1) {
                                Some(end) => Some(
                                    (
                                        MessageAttributeView {
                                            name: q.0,
                                            signal_name: Seq::empty(),
                                            id: digits_value(s, i3, e) as u32,
                                            value: s.subrange(v_i, v_e),
                                        },
                                        end,
                                    ),
                                ),
                                None => None,
                            }
                        }
                    }
                }
            },
        }
    }
}

/// Parses a `BA_ ... BO_` message attribute line.
pub fn message_attribute(input: &[u8]) -> (r: Option<(MessageAttribute, usize)>)
    ensures
        match r {
            Some(p) => spec_message_attribute(input@) == Some((p.0@, p.1 as int)) && 0 < p.1
                <= input@.len(),
            None => spec_message_attribute(input@) is None,
        },
{
    let s = input;
    let k0 = match kw3(s, 0, 66, 65, 95) {
        None => {
            return None;
        },
        Some(j) => j,
    };
    if !space_at(s, k0) {
        return None;
    }
    let i1 = skip_spaces(s, k0);
    match scan_quoted(s, i1) {
        None => None,
        Some((name, q_end)) => {
            if !space_at(s, q_end) {
                return None;
            }
            let i2 = skip_spaces(s, q_end);
            let k1 = match kw3(s, i2, 66, 79, 95) {
                None => {
                    return None;
                },
                Some(j) => j,
            };
            if !space_at(s, k1) {
                return None;
            }
            let i3 = skip_spaces(s, k1);
            let (id, e) = match scan_u32(s, i3) {
                None => {
                    return None;
                },
                Some(p) => p,
            };
            if !space_at(s, e) {
                return None;
            }
            let v_i = skip_spaces(s, e);
            let v_e = digits_end(s, v_i);
            if v_e == v_i || !(v_e < s.len() && s[v_e] == SEMI) {
                return None;
            }
            match scan_line_ending(s, v_e + 1) {
                None => None,
                Some(end) => {
                    let value = copy_range(s, v_i, v_e);
                    Some(
                        (
                            MessageAttribute { name, signal_name: Vec::new(), id, value },
                            end,
                        ),
                    )
                },
            }
        },
    }
}

} // verus!

verus! {

/// An `SG_` line: optional leading spaces, keyword, name token, colon,
/// start bit, `|`, bit length, `@`, endianness digit run, sign, scale and
/// offset in parentheses, minimum and maximum in brackets, quoted units, a
/// receiving-node token, a terminator.
pub open spec fn spec_signal_definition(s: Seq<u8>) -> Option<(SignalDefinitionView, int)> {
    let i0 = spec_skip_spaces(s, 0);
    if !kw3_at(s, i0, 83, 71, 95) {
        None
    } else {
        let n_i = spec_skip_spaces(s, i0 + 3);
        let n_e = spec_find_space(s, n_i);
        if !has_space_at(s, i0 + 3) || n_e >= s.len() {
            None
        } else {
            let c_i = spec_skip_spaces(s, n_e);
            if !(c_i < s.len() && s[c_i] == COLON) {
                None
            } else {
                let sb_i = spec_skip_spaces(s, c_i + 1);
                let sb_e = spec_scan_digits(s, sb_i);
                if !has_space_at(s, c_i + 1) || sb_e == sb_i || digits_value(s, sb_i, sb_e)
                    > usize::MAX {
                    None
                } else if !(sb_e < s.len() && s[sb_e] == PIPE) {
                    None
                } else {
                    let bl_i = sb_e + 1;
                    let bl_e = spec_scan_digits(s, bl_i);
                    if bl_e == bl_i || digits_value(s, bl_i, bl_e) > usize::MAX {
                        None
                    } else if !(bl_e < s.len() && s[bl_e] == AT) {
                        None
                    } else {
                        let d_i = bl_e + 1;
                        let d_e = spec_scan_digits(s, d_i);
                        if d_e == d_i {
                            None
                        } else if !(d_e < s.len() && (s[d_e] == PLUS || s[d_e] == MINUS)) {
                            None
                        } else {
                            spec_signal_definition_tail(
                                s,
                                s.subrange(n_i, n_e),
                                digits_value(s, sb_i, sb_e) as usize,
                                digits_value(s, bl_i, bl_e) as usize,
                                d_e == d_i + 1 && s[d_i] == 49,
                                s[d_e] == MINUS,
                                d_e + 1,
                            )
                        }
                    }
                }
            }
        }
    }
}

/// The numeric tail of an `SG_` line, from the scale onwards.
pub open spec fn spec_signal_definition_tail(
    s: Seq<u8>,
    name: Seq<u8>,
    start_bit: usize,
    bit_len: usize,
    little_endian: bool,
    signed: bool,
    i: int,
) -> Option<(SignalDefinitionView, int)> {
    let p_i = spec_skip_spaces(s, i);
    if !has_space_at(s, i) || !(p_i < s.len() && s[p_i] == LPAREN) {
        None
    } else {
        match spec_decimal(s, p_i + 1) {
            None => None,
            Some(sc) => {
                if !(sc.1 < s.len() && s[sc.1] == COMMA) {
                    None
                } else {
                    match spec_decimal(s, sc.1 + 1) {
                        None => None,
                        Some(of) => {
                            if !(of.1 < s.len() && s[of.1] == RPAREN) {
                                None
                            } else {
                                let b_i = spec_skip_spaces(s, of.1 + 1);
                                if !has_space_at(s, of.1 + 1) || !(b_i < s.len() && s[b_i]
                                    == LBRACK) {
                                    None
                                } else {
                                    match spec_decimal(s, b_i + 1) {
                                        None => None,
                                        Some(mn) => {
                                            if !(mn.1 < s.len() && s[mn.1] == PIPE) {
                                                None
                                            } else {
                                                match spec_decimal(s, mn.1 + 1) {
                                                    None => None,
                                                    Some(mx) => {
                                                        if !(mx.1 < s.len() && s[mx.1]
                                                            == RBRACK) {
                                                            None
                                                        } else {
                                                            spec_signal_definition_end(
                                                                s,
                                                                name,
                                                                start_bit,
                                                                bit_len,
                                                                little_endian,
                                                                signed,
                                                                sc.0,
                                                                of.0,
                                                                mn.0,
                                                                mx.0,
                                                                mx.1 + 1,
                                                            )
                                                        }
                                                    },
                                                }
                                            }
                                        },
                                    }
                                }
                            }
                        },
                    }
                }
            },
        }
    }
}

/// The units and receiving node of an `SG_` line.
pub open spec fn spec_signal_definition_end(
    s: Seq<u8>,
    name: Seq<u8>,
    start_bit: usize,
    bit_len: usize,
    little_endian: bool,
    signed: bool,
    scale: Decimal,
    offset: Decimal,
    min_value: Decimal,
    max_value: Decimal,
    i: int,
) -> Option<(SignalDefinitionView, int)> {
    let u_i = spec_skip_spaces(s, i);
    match spec_quoted(s, u_i) {
        None => None,
        Some(un) => {
            let rn_i = spec_skip_spaces(s, un.1);
            let rn_e = spec_find_space_or_break(s, rn_i);
            if !has_space_at(s, i) || !has_space_at(s, un.1) || rn_e >= s.len() {
                None
            } else {
                match spec_line_ending(s, rn_e) {
                    None => None,
                    Some(end) => Some(
                        (
                            SignalDefinitionView {
                                name,
                                start_bit,
                                bit_len,
                                little_endian,
                                signed,
                                scale,
                                offset,
                                min_value,
                                max_value,
                                units: un.0,
                                receiving_node: s.subrange(rn_i, rn_e),
                            },
                            end,
                        ),
                    ),
                }
            }
        },
    }
}

/// Parses an `SG_` signal definition line.
#[verifier::rlimit(100)]
pub fn signal_definition(input: &[u8]) -> (r: Option<(SignalDefinition, usize)>)
    ensures
        match r {
            Some(p) => spec_signal_definition(input@) == Some((p.0@, p.1 as int)) && 0 < p.1
                <= input@.len(),
            None => spec_signal_definition(input@) is None,
        },
{
    let s = input;
    let i0 = skip_spaces(s, 0);
    let k0 = match kw3(s, i0, 83, 71, 95) {
        None => {
            return None;
        },
        Some(j) => j,
    };
    if !space_at(s, k0) {
        return None;
    }
    let n_i = skip_spaces(s, k0);
    let n_e = find_space(s, n_i);
    if n_e >= s.len() {
        return None;
    }
    let c_i = skip_spaces(s, n_e);
    if !(c_i < s.len() && s[c_i] == COLON) {
        return None;
    }
    if !space_at(s, c_i + 1) {
        return None;
    }
    let sb_i = skip_spaces(s, c_i + 1);
    let (start_bit, sb_e) = match scan_usize(s, sb_i) {
        None => {
            return None;
        },
        Some(p) => p,
    };
    if !(sb_e < s.len() && s[sb_e] == PIPE) {
        return None;
    }
    let bl_i = sb_e + 1;
    let (bit_len, bl_e) = match scan_usize(s, bl_i) {
        None => {
            return None;
        },
        Some(p) => p,
    };
    if !(bl_e < s.len() && s[bl_e] == AT) {
        return None;
    }
    let d_i = bl_e + 1;
    let d_e = digits_end(s, d_i);
    if d_e == d_i {
        return None;
    }
    let little_endian = d_e == d_i + 1 && s[d_i] == 49;
    if !(d_e < s.len() && (s[d_e] == PLUS || s[d_e] == MINUS)) {
        return None;
    }
    let signed = s[d_e] == MINUS;
    if !space_at(s, d_e + 1) {
        return None;
    }
    let p_i = skip_spaces(s, d_e + 1);
    if !(p_i < s.len() && s[p_i] == LPAREN) {
        return None;
    }
    let (scale, sc_e) = match scan_decimal(s, p_i + 1) {
        None => {
            return None;
        },
        Some(p) => p,
    };
    if !(sc_e < s.len() && s[sc_e] == COMMA) {
        return None;
    }
    let (offset, of_e) = match scan_decimal(s, sc_e + 1) {
        None => {
            return None;
        },
        Some(p) => p,
    };
    if !(of_e < s.len() && s[of_e] == RPAREN) {
        return None;
    }
    if !space_at(s, of_e + 1) {
        return None;
    }
    let b_i = skip_spaces(s, of_e + 1);
    if !(b_i < s.len() && s[b_i] == LBRACK) {
        return None;
    }
    let (min_value, mn_e) = match scan_decimal(s, b_i + 1) {
        None => {
            return None;
        },
        Some(p) => p,
    };
    if !(mn_e < s.len() && s[mn_e] == PIPE) {
        return None;
    }
    let (max_value, mx_e) = match scan_decimal(s, mn_e + 1) {
        None => {
            return None;
        },
        Some(p) => p,
    };
    if !(mx_e < s.len() && s[mx_e] == RBRACK) {
        return None;
    }
    if !space_at(s, mx_e + 1) {
        return None;
    }
    let u_i = skip_spaces(s, mx_e + 1);
    let (units, u_e) = match scan_quoted(s, u_i) {
        None => {
            return None;
        },
        Some(p) => p,
    };
    if !space_at(s, u_e) {
        return None;
    }
    let rn_i = skip_spaces(s, u_e);
    let rn_e = find_space_or_break(s, rn_i);
    if rn_e >= s.len() {
        return None;
    }
    match scan_line_ending(s, rn_e) {
        None => None,
        Some(end) => {
            let name = copy_range(s, n_i, n_e);
            let receiving_node = copy_range(s, rn_i, rn_e);
            Some(
                (
                    SignalDefinition {
                        name,
                        start_bit,
                        bit_len,
                        little_endian,
                        signed,
                        scale,
                        offset,
                        min_value,
                        max_value,
                        units,
                        receiving_node,
                    },
                    end,
                ),
            )
        },
    }
}

/// A `CM_ SG_` line: the two keywords, an id, a signal-name token, a quoted
/// description, a semicolon, a terminator.
pub open spec fn spec_signal_description(s: Seq<u8>) -> Option<(SignalDescriptionView, int)> {
    if !kw3_at(s, 0, 67, 77, 95) {
        None
    } else {
        let i1 = spec_skip_spaces(s, 3);
        if !has_space_at(s, 3) || !kw3_at(s, i1, 83, 71, 95) {
            None
        } else {
            let i2 = spec_skip_spaces(s, i1 + 3);
            let e = spec_scan_digits(s, i2);
            if !has_space_at(s, i1 + 3) || e == i2 || digits_value(s, i2, e) > u32::MAX
                || !has_space_at(s, e) {
                None
            } else {
                let sn_i = spec_skip_spaces(s, e);
                let sn_e = spec_find_space(s, sn_i);
                if sn_e >= s.len() {
                    None
                } else {
                    let q_i = spec_skip_spaces(s, sn_e);
                    match spec_quoted(s, q_i) {
                        None => None,
                        Some(q) => {
                            if !(q.1 < s.len() && s[q.1] == SEMI) {
                                None
                            } else {
                                match spec_line_ending(s, q.1 + 1) {
                                    None => None,
                                    Some(end) => Some(
                                        (
                                            SignalDescriptionView {
                                                id: digits_value(s, i2, e) as u32,
                                                signal_name: s.subrange(sn_i, sn_e),
                                                description: q.0,
                                            },
                                            end,
                                        ),
                                    ),
                                }
                            }
                        },
                    }
                }
            }
        }
    }
}

/// Parses a `CM_ SG_` signal description line.
pub fn signal_description(input: &[u8]) -> (r: Option<(SignalDescription, usize)>)
    ensures
        match r {
            Some(p) => spec_signal_description(input@) == Some((p.0@, p.1 as int)) && 0 < p.1
                <= input@.len(),
            None => spec_signal_description(input@) is None,
        },
{
    let s = input;
    let k0 = match kw3(s, 0, 67, 77, 95) {
        None => {
            return None;
        },
        Some(j) => j,
    };
    if !space_at(s, k0) {
        return None;
    }
    let i1 = skip_spaces(s, k0);
    let k1 = match kw3(s, i1, 83, 71, 95) {
        None => {
            return None;
        },
        Some(j) => j,
    };
    if !space_at(s, k1) {
        return None;
    }
    let i2 = skip_spaces(s, k1);
    let (id, e) = match scan_u32(s, i2) {
        None => {
            return None;
        },
        Some(p) => p,
    };
    if !space_at(s, e) {
        return None;
    }
    let sn_i = skip_spaces(s, e);
    let sn_e = find_space(s, sn_i);
    if sn_e >= s.len() {
        return None;
    }
    let q_i = skip_spaces(s, sn_e);
    match scan_quoted(s, q_i) {
        None => None,
        Some((description, j)) => {
            if !(j < s.len() && s[j] == SEMI) {
                return None;
            }
            match scan_line_ending(s, j + 1) {
                None => None,
                Some(end) => {
                    let signal_name = copy_range(s, sn_i, sn_e);
                    Some((SignalDescription { id, signal_name, description }, end))
                },
            }
        },
    }
}

/// A `BA_ ... SG_` line: keyword, quoted attribute name, keyword, id, a
/// signal-name token, a digit run kept as text, a semicolon, a terminator.
pub open spec fn spec_signal_attribute(s: Seq<u8>) -> Option<(SignalAttributeView, int)> {
    if !kw3_at(s, 0, 66, 65, 95) {
        None
    } else {
        let i1 = spec_skip_spaces(s, 3);
        match spec_quoted(s, i1) {
            None => None,
            Some(q) => {
                let i2 = spec_skip_spaces(s, q.1);
                if !has_space_at(s, 3) || !has_space_at(s, q.1) || !kw3_at(
                    s,
                    i2,
                    83,
                    71,
                    95,
                ) {
                    None
                } else {
                    let i3 = spec_skip_spaces(s, i2 + 3);
                    let e = spec_scan_digits(s, i3);
                    if !has_space_at(s, i2 + 3) || e == i3 || digits_value(s, i3, e)
                        > u32::MAX || !has_space_at(s, e) {
                        None
                    } else {
                        let sn_i = spec_skip_spaces(s, e);
                        let sn_e = spec_find_space(s, sn_i);
                        if sn_e >= s.len() {
                            None
                        } else {
                            let v_i = spec_skip_spaces(s, sn_e);
                            let v_e = spec_scan_digits(s, v_i);
                            if v_e == v_i || !(v_e < s.len() && s[v_e] == SEMI) {
                                None
                            } else {
                                match spec_line_ending(s, v_e + 1) {
                                    None => None,
                                    Some(end) => Some(
                                        (
                                            SignalAttributeView {
                                                name: q.0,
                                                id: digits_value(s, i3, e) as u32,
                                                signal_name: s.subrange(sn_i, sn_e),
                                                value: s.subrange(v_i, v_e),
                                            },
                                            end,
                                        ),
                                    ),
                                }
                            }
                        }
                    }
                }
            },
        }
    }
}

/// Parses a `BA_ ... SG_` signal attribute line.
pub fn signal_attribute(input: &[u8]) -> (r: Option<(SignalAttribute, usize)>)
    ensures
        match r {
            Some(p) => spec_signal_attribute(input@) == Some((p.0@, p.1 as int)) && 0 < p.1
                <= input@.len(),
            None => spec_signal_attribute(input@) is None,
        },
{
    let s = input;
    let k0 = match kw3(s, 0, 66, 65, 95) {
        None => {
            return None;
        },
        Some(j) => j,
    };
    if !space_at(s, k0) {
        return None;
    }
    let i1 = skip_spaces(s, k0);
    match scan_quoted(s, i1) {
        None => None,
        Some((name, q_end)) => {
            if !space_at(s, q_end) {
                return None;
            }
            let i2 = skip_spaces(s, q_end);
            let k1 = match kw3(s, i2, 83, 71, 95) {
                None => {
                    return None;
                },
                Some(j) => j,
            };
            if !space_at(s, k1) {
                return None;
            }
            let i3 = skip_spaces(s, k1);
            let (id, e) = match scan_u32(s, i3) {
                None => {
                    return None;
                },
                Some(p) => p,
            };
            if !space_at(s, e) {
                return None;
            }
            let sn_i = skip_spaces(s, e);
            let sn_e = find_space(s, sn_i);
            if sn_e >= s.len() {
                return None;
            }
            let v_i = skip_spaces(s, sn_e);
            let v_e = digits_end(s, v_i);
            if v_e == v_i || !(v_e < s.len() && s[v_e] == SEMI) {
                return None;
            }
            match scan_line_ending(s, v_e + 1) {
                None => None,
                Some(end) => {
                    let signal_name = copy_range(s, sn_i, sn_e);
                    let value = copy_range(s, v_i, v_e);
                    Some((SignalAttribute { name, id, signal_name, value }, end))
                },
            }
        },
    }
}

/// The fallback grammar: everything up to the next line terminator, kept
/// verbatim, with the terminator consumed.  Fails only when the input holds
/// no terminator.
pub open spec fn spec_unknown(s: Seq<u8>) -> Option<(Seq<u8>, int)> {
    let j = spec_find_break(s, 0);
    if j < s.len() {
        match spec_line_ending(s, j) {
            Some(end) => Some((s.subrange(0, j), end)),
            None => None,
        }
    } else {
        None
    }
}

/// Consumes one unrecognised line.
pub fn unknown(input: &[u8]) -> (r: Option<(Vec<u8>, usize)>)
    ensures
        match r {
            Some(p) => spec_unknown(input@) == Some((p.0@, p.1 as int)) && 0 < p.1
                <= input@.len(),
            None => spec_unknown(input@) is None,
        },
{
    let j = find_break(input, 0);
    if j >= input.len() {
        return None;
    }
    match scan_line_ending(input, j) {
        None => None,
        Some(end) => {
            let text = copy_range(input, 0, j);
            Some((text, end))
        },
    }
}

/// Result of the grammar dispatcher: a record with the count of bytes it
/// consumed, or the incomplete-input condition.
pub enum SpecParse {
    Record(EntryView, int),
    Incomplete,
}

/// The dispatcher's grammar: the recognised line shapes are tried in a fixed
/// priority order; a line that matches none becomes an `Unknown` record; an
/// input without any line terminator is incomplete.
#[verifier::opaque]
pub open spec fn spec_entry(s: Seq<u8>) -> SpecParse {
    match spec_version(s) {
        Some(p) => SpecParse::Record(EntryView::Version(VersionView { text: p.0 }), p.1),
        None => match spec_bus_configuration(s) {
            Some(p) => SpecParse::Record(EntryView::BusConfiguration(p.0), p.1),
            None => match spec_message_definition(s) {
                Some(p) => SpecParse::Record(EntryView::MessageDefinition(p.0), p.1),
                None => match spec_message_description(s) {
                    Some(p) => SpecParse::Record(EntryView::MessageDescription(p.0), p.1),
                    None => match spec_message_attribute(s) {
                        Some(p) => SpecParse::Record(EntryView::MessageAttribute(p.0), p.1),
                        None => match spec_signal_definition(s) {
                            Some(p) => SpecParse::Record(EntryView::SignalDefinition(p.0), p.1),
                            None => match spec_signal_description(s) {
                                Some(p) => SpecParse::Record(
                                    EntryView::SignalDescription(p.0),
                                    p.1,
                                ),
                                None => match spec_signal_attribute(s) {
                                    Some(p) => SpecParse::Record(
                                        EntryView::SignalAttribute(p.0),
                                        p.1,
                                    ),
                                    None => match spec_unknown(s) {
                                        Some(p) => SpecParse::Record(
                                            EntryView::Unknown(p.0),
                                            p.1,
                                        ),
                                        None => SpecParse::Incomplete,
                                    },
                                },
                            },
                        },
                    },
                },
            },
        },
    }
}

/// Parses one record from the front of the input, returning it with the
/// count of bytes consumed.  Fails exactly when no line terminator remains.
pub fn entry(input: &[u8]) -> (r: Result<(Entry, usize), ParseEntryError>)
    ensures
        match r {
            Ok(p) => spec_entry(input@) == SpecParse::Record(p.0@, p.1 as int) && 0 < p.1
                <= input@.len(),
            Err(_) => spec_entry(input@) is Incomplete,
        },
{
    proof {
        reveal(crate::parser::spec_entry);
    }
    match version(input) {
        Some((v, n)) => {
            return Ok((Entry::Version(v), n));
        },
        None => {},
    }
    match bus_configuration(input) {
        Some((b, n)) => {
            return Ok((Entry::BusConfiguration(b), n));
        },
        None => {},
    }
    match message_definition(input) {
        Some((m, n)) => {
            return Ok((Entry::MessageDefinition(m), n));
        },
        None => {},
    }
    match message_description(input) {
        Some((m, n)) => {
            return Ok((Entry::MessageDescription(m), n));
        },
        None => {},
    }
    match message_attribute(input) {
        Some((m, n)) => {
            return Ok((Entry::MessageAttribute(m), n));
        },
        None => {},
    }
    match signal_definition(input) {
        Some((sd, n)) => {
            return Ok((Entry::SignalDefinition(sd), n));
        },
        None => {},
    }
    match signal_description(input) {
        Some((sd, n)) => {
            return Ok((Entry::SignalDescription(sd), n));
        },
        None => {},
    }
    match signal_attribute(input) {
        Some((sa, n)) => {
            return Ok((Entry::SignalAttribute(sa), n));
        },
        None => {},
    }
    match unknown(input) {
        Some((text, n)) => Ok((Entry::Unknown(text), n)),
        None => Err(ParseEntryError),
    }
}

} // verus!
