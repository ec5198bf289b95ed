//! Single bits inside byte strings, counted from the most significant end.
//!
//! Bit `index` of a byte string lives in byte `index / 8`; inside that byte,
//! bit 0 is the top bit (`0x80`) and bit 7 the bottom one (`0x01`). The two
//! executable functions here hand the work to `bitvec`; their contracts are
//! taken on trust, everything else in the crate is proved from them.

use bitvec::order::Msb0;
use bitvec::slice::BitSlice;
use vstd::prelude::*;

verus! {

/// The longest byte string that the bit accessors take. It is far below the
/// length at which `bitvec` refuses a slice, on 32-bit machines too.
pub const MAX_BYTES: usize = 0x100_0000;

/// The mask that selects bit `k` of a byte, for `0 <= k < 8`.
pub open spec fn mask_of(k: int) -> u8 {
    0x80u8 >> (k as u8)
}

/// Whether bit `k` of `byte` is set.
pub open spec fn bit_of(byte: u8, k: int) -> bool {
    byte & mask_of(k) != 0
}

/// `byte` with bit `k` forced to `value`.
pub open spec fn with_bit(byte: u8, k: int, value: bool) -> u8 {
    if value {
        byte | mask_of(k)
    } else {
        byte & !mask_of(k)
    }
}

/// Whether bit `index` of the byte string is set.
pub open spec fn bit_at(bytes: Seq<u8>, index: int) -> bool {
    bit_of(bytes[index / 8], index % 8)
}

/// The byte string with bit `index` forced to `value`.
pub open spec fn set_bit_at(bytes: Seq<u8>, index: int, value: bool) -> Seq<u8> {
    bytes.update(index / 8, with_bit(bytes[index / 8], index % 8, value))
}

/// Reads one bit through `BitSlice::<u8, Msb0>::from_slice(..).get(..)`.
///
/// Trusted: the result is `None` exactly when `index` lies past the last bit,
/// and otherwise the bit that `bit_at` describes.
#[verifier::external_body]
pub(crate) fn read_bit(bytes: &[u8], index: usize) -> (bit: Option<bool>)
    requires
        bytes@.len() <= MAX_BYTES,
    ensures
        bit == if index < bytes@.len() * 8 {
            Some(bit_at(bytes@, index as int))
        } else {
            None
        },
{
    BitSlice::<u8, Msb0>::from_slice(bytes).get(index).as_deref().copied()
}

/// Writes one bit through `BitSlice::<u8, Msb0>::from_slice_mut(..).set(..)`.
///
/// Trusted: exactly the addressed bit takes the new value, as `set_bit_at`
/// describes; every other bit and the length stay as they were.
#[verifier::external_body]
pub(crate) fn write_bit(bytes: &mut [u8], index: usize, value: bool)
    requires
        old(bytes)@.len() <= MAX_BYTES,
        index < old(bytes)@.len() * 8,
    ensures
        final(bytes)@ == set_bit_at(old(bytes)@, index as int, value),
{
    BitSlice::<u8, Msb0>::from_slice_mut(bytes).set(index, value);
}

/// Reading back the bit that was just forced gives the forced value.
pub proof fn lemma_with_bit_same(byte: u8, k: int, value: bool)
    requires
        0 <= k < 8,
    ensures
        bit_of(with_bit(byte, k, value), k) == value,
{
    let s = k as u8;
    assert((byte | (0x80u8 >> s)) & (0x80u8 >> s) != 0) by (bit_vector)
        requires
            s < 8,
    ;
    assert((byte & !(0x80u8 >> s)) & (0x80u8 >> s) == 0) by (bit_vector)
        requires
            s < 8,
    ;
}

/// Forcing one bit leaves every other bit of the byte alone.
pub proof fn lemma_with_bit_other(byte: u8, k: int, value: bool, j: int)
    requires
        0 <= k < 8,
        0 <= j < 8,
        j != k,
    ensures
        bit_of(with_bit(byte, k, value), j) == bit_of(byte, j),
{
    let s = k as u8;
    let t = j as u8;
    assert(((byte | (0x80u8 >> s)) & (0x80u8 >> t) != 0) == (byte & (0x80u8 >> t) != 0))
        by (bit_vector)
        requires
            s < 8,
            t < 8,
            s != t,
    ;
    assert(((byte & !(0x80u8 >> s)) & (0x80u8 >> t) != 0) == (byte & (0x80u8 >> t) != 0))
        by (bit_vector)
        requires
            s < 8,
            t < 8,
            s != t,
    ;
}

/// What a bit string holds after one of its bits was forced: the new value at
/// that bit, the old value everywhere else.
pub proof fn lemma_set_bit_at(bytes: Seq<u8>, index: int, value: bool, other: int)
    requires
        0 <= index < bytes.len() * 8,
        0 <= other < bytes.len() * 8,
    ensures
        set_bit_at(bytes, index, value).len() == bytes.len(),
        bit_at(set_bit_at(bytes, index, value), other) == if other == index {
            value
        } else {
            bit_at(bytes, other)
        },
{
    if other == index {
        lemma_with_bit_same(bytes[index / 8], index % 8, value);
    } else if other / 8 == index / 8 {
        lemma_with_bit_other(bytes[index / 8], index % 8, value, other % 8);
    }
}

} // verus!
