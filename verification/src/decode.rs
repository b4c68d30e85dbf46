//! The bit-field decoder.
//!
//! A signal's raw value sits inside a CAN frame as a bit span: the frame's
//! bytes are read as one 64-bit word in the signal's endianness, shifted
//! right by the start bit and masked to the bit length.  The spec states
//! this arithmetically: the raw value is `(word / 2^start) mod 2^len`, with
//! the word the base-256 value of the frame's bytes.  Scaling the raw value
//! by the signal's decimal scale and offset is floating-point work and is
//! left to the caller.

use vstd::arithmetic::div_mod::{lemma_div_denominator, lemma_fundamental_div_mod_converse};
use vstd::arithmetic::power2::{
    lemma2_to64, lemma2_to64_rest, lemma_pow2_adds, lemma_pow2_pos, lemma_pow2_strictly_increases,
    pow2,
};
use vstd::bits::{
    lemma_u64_low_bits_mask_is_mod, lemma_u64_pow2_no_overflow, lemma_u64_shl_is_mul,
    lemma_u64_shr_is_div, low_bits_mask,
};
use vstd::prelude::*;

verus! {

/// Base-256 value of a byte sequence, least significant byte first.
pub open spec fn le_value(b: Seq<u8>) -> nat
    decreases b.len(),
{
    if b.len() == 0 {
        0
    } else {
        (b[0] as nat) + 256 * le_value(b.drop_first())
    }
}

/// Base-256 value of a byte sequence, most significant byte first.
pub open spec fn be_value(b: Seq<u8>) -> nat
    decreases b.len(),
{
    if b.len() == 0 {
        0
    } else {
        256 * be_value(b.drop_last()) + (b.last() as nat)
    }
}

/// The 64-bit word a buffer yields under the requested endianness.
pub open spec fn word_of(b: Seq<u8>, little_endian: bool) -> nat {
    if little_endian {
        le_value(b)
    } else {
        be_value(b)
    }
}

/// Eight bytes of `msg` starting at `skip`, zero-extended past the end.
pub open spec fn window8(msg: Seq<u8>, skip: int) -> Seq<u8> {
    Seq::new(
        8,
        |j: int|
            if skip + j < msg.len() {
                msg[skip + j]
            } else {
                0
            },
    )
}

/// The `len`-bit field of `v` that starts at bit `start`.
pub open spec fn spec_extract(v: nat, start: nat, len: nat) -> nat {
    (v / pow2(start)) % pow2(len)
}

/// Raw value of a signal inside a fixed eight-byte frame.
pub open spec fn spec_parse_array(
    bit_len: nat,
    start_bit: nat,
    little_endian: bool,
    b: Seq<u8>,
) -> nat {
    spec_extract(word_of(b, little_endian), start_bit, bit_len)
}

/// Raw value of a signal inside an arbitrary buffer: whole bytes are skipped
/// first, the remaining eight-byte window is zero-extended, and the reduced
/// start bit and the bit length must each fit the 64-bit window.
pub open spec fn spec_parse_message(
    bit_len: usize,
    start_bit: usize,
    little_endian: bool,
    msg: Seq<u8>,
) -> Option<u64> {
    let reduced = (start_bit as int) % 8;
    if reduced >= 64 || bit_len >= 64 {
        None
    } else {
        Some(
            spec_extract(
                word_of(window8(msg, (start_bit as int) / 8), little_endian),
                reduced as nat,
                bit_len as nat,
            ) as u64,
        )
    }
}

/// A byte value is below each larger power of two's byte bound.
proof fn lemma_le_value_bound(b: Seq<u8>)
    ensures
        le_value(b) < pow2(8 * b.len()),
    decreases b.len(),
{
    if b.len() == 0 {
        lemma2_to64();
    } else {
        lemma_le_value_bound(b.drop_first());
        lemma_pow2_adds(8, 8 * (b.len() - 1) as nat);
        lemma2_to64();
        assert(8 * b.len() == 8 + 8 * (b.len() - 1));
        assert(le_value(b) == (b[0] as nat) + 256 * le_value(b.drop_first()));
        assert(256 * le_value(b.drop_first()) <= 256 * (pow2(8 * (b.len() - 1) as nat) - 1))
            by (nonlinear_arith)
            requires
                le_value(b.drop_first()) <= pow2(8 * (b.len() - 1) as nat) - 1,
        ;
    }
}

proof fn lemma_be_value_bound(b: Seq<u8>)
    ensures
        be_value(b) < pow2(8 * b.len()),
    decreases b.len(),
{
    if b.len() == 0 {
        lemma2_to64();
    } else {
        lemma_be_value_bound(b.drop_last());
        lemma_pow2_adds(8 * (b.len() - 1) as nat, 8);
        lemma2_to64();
        assert(8 * b.len() == 8 * (b.len() - 1) + 8);
        assert(be_value(b) == 256 * be_value(b.drop_last()) + (b.last() as nat));
        assert(256 * be_value(b.drop_last()) <= 256 * (pow2(8 * (b.len() - 1) as nat) - 1))
            by (nonlinear_arith)
            requires
                be_value(b.drop_last()) <= pow2(8 * (b.len() - 1) as nat) - 1,
        ;
    }
}

/// One byte of the zero-extended window.
fn window_byte(msg: &[u8], skip: usize, j: usize) -> (r: u8)
    requires
        j < 8,
        skip + j <= usize::MAX,
    ensures
        r == window8(msg@, skip as int)[j as int],
{
    if skip < msg.len() && j < msg.len() - skip {
        msg[skip + j]
    } else {
        0
    }
}

/// Reads the eight-byte window at `skip` as a 64-bit word in the requested
/// endianness.
fn read_word(msg: &[u8], skip: usize, little_endian: bool) -> (r: u64)
    requires
        skip + 8 <= usize::MAX,
    ensures
        r as nat == word_of(window8(msg@, skip as int), little_endian),
{
    let ghost w = window8(msg@, skip as int);
    proof {
        assert(w.len() == 8);
    }
    if little_endian {
        let mut acc: u64 = 0;
        let mut j: usize = 8;
        proof {
            assert(w.skip(8).len() == 0);
        }
        while j > 0
            invariant
                j <= 8,
                skip + 8 <= usize::MAX,
                w == window8(msg@, skip as int),
                acc as nat == le_value(w.skip(j as int)),
            decreases j,
        {
            j = j - 1;
            let b = window_byte(msg, skip, j);
            proof {
                lemma_le_value_bound(w.skip(j + 1));
                lemma_pow2_bound_56(w.skip(j + 1).len());
                lemma2_to64();
                lemma2_to64_rest();
                assert(w.skip(j as int)[0] == w[j as int]);
                assert(w.skip(j as int).drop_first() =~= w.skip(j + 1));
                assert(le_value(w.skip(j as int)) == w[j as int] + 256 * le_value(
                    w.skip(j + 1),
                ));
            }
            acc = acc * 256 + b as u64;
        }
        proof {
            assert(w.skip(0) =~= w);
        }
        acc
    } else {
        let mut acc: u64 = 0;
        let mut j: usize = 0;
        proof {
            assert(w.take(0).len() == 0);
        }
        while j < 8
            invariant
                j <= 8,
                skip + 8 <= usize::MAX,
                w == window8(msg@, skip as int),
                acc as nat == be_value(w.take(j as int)),
            decreases 8 - j,
        {
            let b = window_byte(msg, skip, j);
            proof {
                lemma_be_value_bound(w.take(j as int));
                lemma_pow2_bound_56(w.take(j as int).len());
                lemma2_to64();
                lemma2_to64_rest();
                assert(w.take(j + 1).drop_last() =~= w.take(j as int));
                assert(w.take(j + 1).last() == w[j as int]);
                assert(be_value(w.take(j + 1)) == 256 * be_value(w.take(j as int)) + w[
                    j as int
                ]);
            }
            acc = acc * 256 + b as u64;
            j = j + 1;
        }
        proof {
            assert(w.take(8) =~= w);
        }
        acc
    }
}

/// A value below `2^(8n)` with `n` at most seven is below `2^56`.
proof fn lemma_pow2_bound_56(n: nat)
    requires
        n <= 7,
    ensures
        pow2(8 * n) <= pow2(56),
{
    if 8 * n < 56 {
        lemma_pow2_strictly_increases(8 * n, 56);
    }
}

/// Shifts and masks the word down to the requested bit field.
fn extract_bits(word: u64, start: u64, len: u64) -> (r: u64)
    requires
        start < 64,
        len < 64,
    ensures
        r as nat == spec_extract(word as nat, start as nat, len as nat),
{
    proof {
        lemma_u64_pow2_no_overflow(len as nat);
        lemma_u64_shl_is_mul(1u64, len);
        lemma_u64_shr_is_div(word, start);
        lemma_pow2_pos(start as nat);
        lemma_pow2_pos(len as nat);
    }
    let mask = (1u64 << len) - 1;
    let shifted = word >> start;
    proof {
        assert(mask == low_bits_mask(len as nat));
        lemma_u64_low_bits_mask_is_mod(shifted, len as nat);
    }
    shifted & mask
}

/// Raw value of a signal in a fixed eight-byte frame: the whole frame is one
/// word; the start bit and bit length must leave the shift and mask inside
/// 64 bits.
pub fn parse_array(bit_len: usize, start_bit: usize, little_endian: bool, msg: &[u8; 8]) -> (r:
    u64)
    requires
        bit_len < 64,
        start_bit < 64,
    ensures
        r as nat == spec_parse_array(bit_len as nat, start_bit as nat, little_endian, msg@),
{
    let s = msg.as_slice();
    proof {
        assert(window8(s@, 0) =~= s@);
    }
    let word = read_word(s, 0, little_endian);
    extract_bits(word, start_bit as u64, bit_len as u64)
}

/// Raw value of a signal in an arbitrary buffer.  Whole bytes are skipped
/// first; the remaining window is zero-extended to eight bytes, so a short
/// buffer decodes as if padded with trailing zero bytes.  An absent value is
/// returned exactly when the reduced start bit or the bit length does not
/// fit the 64-bit window.
pub fn parse_message(bit_len: usize, start_bit: usize, little_endian: bool, msg: &[u8]) -> (r:
    Option<u64>)
    ensures
        r == spec_parse_message(bit_len, start_bit, little_endian, msg@),
{
    let skip = start_bit / 8;
    let reduced = start_bit % 8;
    if reduced >= 64 {
        return None;
    }
    if bit_len >= 64 {
        return None;
    }
    let word = read_word(msg, skip, little_endian);
    let raw = extract_bits(word, reduced as u64, bit_len as u64);
    proof {
        lemma_pow2_pos(bit_len as nat);
        let w = word_of(window8(msg@, (start_bit as int) / 8), little_endian);
        assert(spec_extract(w, reduced as nat, bit_len as nat) < pow2(bit_len as nat));
        lemma_u64_pow2_no_overflow(bit_len as nat);
    }
    Some(raw)
}

/// Decoding is a function of the geometry and the buffer alone: two decodes
/// of the same start bit, bit length, endianness and bytes yield the same
/// value, for the fixed and the variable path alike.
pub proof fn lemma_decode_deterministic(
    bit_len: usize,
    start_bit: usize,
    little_endian: bool,
    msg: Seq<u8>,
)
    ensures
        spec_parse_message(bit_len, start_bit, little_endian, msg) == spec_parse_message(
            bit_len,
            start_bit,
            little_endian,
            msg,
        ),
        spec_parse_array(
            bit_len as nat,
            start_bit as nat,
            little_endian,
            msg,
        ) == spec_parse_array(bit_len as nat, start_bit as nat, little_endian, msg),
{
}

/// A buffer decodes exactly as the same buffer padded with trailing zero
/// bytes: the zero extension of the window and explicit zero padding agree.
pub proof fn lemma_zero_padding(
    bit_len: usize,
    start_bit: usize,
    little_endian: bool,
    msg: Seq<u8>,
    padded: Seq<u8>,
)
    requires
        msg.len() <= padded.len(),
        padded.subrange(0, msg.len() as int) == msg,
        forall|j: int| msg.len() <= j < padded.len() ==> padded[j] == 0,
    ensures
        spec_parse_message(bit_len, start_bit, little_endian, msg) == spec_parse_message(
            bit_len,
            start_bit,
            little_endian,
            padded,
        ),
{
    let skip = (start_bit as int) / 8;
    assert(window8(msg, skip) =~= window8(padded, skip)) by {
        assert forall|j: int| 0 <= j < 8 implies window8(msg, skip)[j] == window8(
            padded,
            skip,
        )[j] by {
            if skip + j < msg.len() {
                assert(padded[skip + j] == padded.subrange(0, msg.len() as int)[skip + j]);
            }
        }
    }
}

/// An out-of-range geometry yields an absent value, never anything else: the
/// variable-length decode is `None` exactly when the reduced start bit or
/// the bit length reaches 64.
pub proof fn lemma_decode_range_guard(
    bit_len: usize,
    start_bit: usize,
    little_endian: bool,
    msg: Seq<u8>,
)
    ensures
        spec_parse_message(bit_len, start_bit, little_endian, msg) is None <==> (
        (start_bit as int) % 8 >= 64 || bit_len >= 64),
        bit_len >= 64 ==> spec_parse_message(bit_len, start_bit, little_endian, msg) is None,
{
}

} // verus!

verus! {

/// A sequence of zero bytes has value zero.
proof fn lemma_le_value_zeros(b: Seq<u8>)
    requires
        forall|j: int| 0 <= j < b.len() ==> b[j] == 0,
    ensures
        le_value(b) == 0,
    decreases b.len(),
{
    if b.len() > 0 {
        lemma_le_value_zeros(b.drop_first());
    }
}

/// Splitting a buffer after `k` bytes splits its little-endian value.
proof fn lemma_le_split(b: Seq<u8>, k: int)
    requires
        0 <= k <= b.len(),
    ensures
        le_value(b) == le_value(b.take(k)) + pow2((8 * k) as nat) * le_value(b.skip(k)),
    decreases k,
{
    if k == 0 {
        assert(b.take(0).len() == 0);
        assert(b.skip(0) =~= b);
        lemma2_to64();
    } else {
        let d = b.drop_first();
        lemma_le_split(d, k - 1);
        assert(b.take(k)[0] == b[0]);
        assert(b.take(k).drop_first() =~= d.take(k - 1));
        assert(b.skip(k) =~= d.skip(k - 1));
        assert(le_value(b.take(k)) == b[0] + 256 * le_value(d.take(k - 1)));
        lemma_pow2_adds(8, (8 * (k - 1)) as nat);
        lemma2_to64();
        let p = pow2((8 * (k - 1)) as nat) as int;
        let hi = le_value(d.skip(k - 1)) as int;
        assert((8 * k) as nat == 8 + (8 * (k - 1)) as nat);
        assert(pow2((8 * k) as nat) == 256 * p);
        assert(le_value(b) == b[0] + 256 * le_value(d));
        assert(le_value(d) == le_value(d.take(k - 1)) + p * hi);
        assert(256 * (p * hi) == (256 * p) * hi) by (nonlinear_arith);
        assert(256 * (le_value(d.take(k - 1)) + p * hi) == 256 * le_value(d.take(k - 1)) + 256
            * (p * hi)) by (nonlinear_arith);
        assert(le_value(b) == le_value(b.take(k)) + (256 * p) * hi);
    }
}

/// On a full eight-byte frame, the window after skipping `k` bytes has the
/// little-endian value of the frame's tail.
proof fn lemma_window_le(b: Seq<u8>, k: int)
    requires
        b.len() == 8,
        0 <= k <= 8,
    ensures
        le_value(window8(b, k)) == le_value(b.skip(k)),
{
    let w = window8(b, k);
    lemma_le_split(w, 8 - k);
    assert(w.take(8 - k) =~= b.skip(k));
    assert(forall|j: int| 0 <= j < w.skip(8 - k).len() ==> #[trigger] w.skip(8 - k)[j] == 0);
    lemma_le_value_zeros(w.skip(8 - k));
}

/// On a full eight-byte frame the fixed and the variable little-endian
/// decode paths agree: skipping whole bytes and shifting by the remaining
/// bits extracts the same field as shifting the whole word by the start
/// bit.  (The two big-endian paths read differently aligned words and do
/// not agree in general.)
pub proof fn lemma_paths_agree_little_endian(bit_len: usize, start_bit: usize, b: Seq<u8>)
    requires
        b.len() == 8,
        bit_len < 64,
        start_bit < 64,
    ensures
        spec_parse_message(bit_len, start_bit, true, b) == Some(
            spec_parse_array(bit_len as nat, start_bit as nat, true, b) as u64,
        ),
{
    let k = (start_bit as int) / 8;
    let r = (start_bit as int) % 8;
    let v = le_value(b) as int;
    let lo = le_value(b.take(k)) as int;
    let hi = le_value(b.skip(k)) as int;
    assert(0 <= k <= 8 && 0 <= r < 8 && 8 * k + r == start_bit);
    lemma_le_split(b, k);
    lemma_window_le(b, k);
    lemma_le_value_bound(b.take(k));
    lemma_pow2_pos((8 * k) as nat);
    lemma_pow2_pos(r as nat);
    let p8k = pow2((8 * k) as nat) as int;
    let pr = pow2(r as nat) as int;
    assert(hi * p8k + lo == v) by (nonlinear_arith)
        requires
            v == lo + p8k * hi,
    ;
    lemma_fundamental_div_mod_converse(v, p8k, hi, lo);
    assert(hi == v / p8k);
    lemma_div_denominator(v, p8k, pr);
    assert((v / p8k) / pr == v / (p8k * pr));
    lemma_pow2_adds((8 * k) as nat, r as nat);
    assert(p8k * pr == pow2(start_bit as nat));
    assert(spec_extract(le_value(window8(b, k)) as nat, r as nat, bit_len as nat)
        == spec_extract(le_value(b), start_bit as nat, bit_len as nat));
}

} // verus!
