//! Little-endian integers: their meaning as numbers, and the calls that
//! convert them.

use byteorder::{ByteOrder, LittleEndian};
use vstd::prelude::*;
use vstd::slice::slice_subrange;

verus! {

/// The number of values that `width` bytes can hold: 256 to the power `width`.
pub open spec fn radix(width: nat) -> nat
    decreases width,
{
    if width == 0 {
        1
    } else {
        256 * radix((width - 1) as nat)
    }
}

/// The number that `bytes` spell, least significant byte first.
pub open spec fn le_value(bytes: Seq<u8>) -> nat
    decreases bytes.len(),
{
    if bytes.len() == 0 {
        0
    } else {
        bytes[0] as nat + 256 * le_value(bytes.drop_first())
    }
}

/// The `width` low bytes of `value`, least significant byte first.
pub open spec fn le_bytes(value: nat, width: nat) -> Seq<u8>
    decreases width,
{
    if width == 0 {
        Seq::empty()
    } else {
        seq![(value % 256) as u8] + le_bytes(value / 256, (width - 1) as nat)
    }
}

/// The signed number that the unsigned `value` stands for in two's
/// complement on `width` bytes.
pub open spec fn signed(value: nat, width: nat) -> int {
    if 2 * value >= radix(width) {
        value - radix(width)
    } else {
        value as int
    }
}

/// The unsigned number that stands for `value` in two's complement on
/// `width` bytes.
pub open spec fn unsigned(value: int, width: nat) -> nat {
    if value < 0 {
        (value + radix(width)) as nat
    } else {
        value as nat
    }
}

/// Whether `value` can be written in two's complement on `width` bytes.
pub open spec fn fits_signed(value: int, width: nat) -> bool {
    -(radix(width) as int) <= 2 * value < radix(width)
}

/// The number of values of one, two, four and eight bytes.
pub proof fn lemma_radix_values()
    ensures
        radix(1) == 0x100,
        radix(2) == 0x1_0000,
        radix(4) == 0x1_0000_0000,
        radix(8) == 0x1_0000_0000_0000_0000,
{
    reveal_with_fuel(radix, 9);
}

/// `width` bytes are written.
pub proof fn lemma_le_bytes_len(value: nat, width: nat)
    ensures
        le_bytes(value, width).len() == width,
    decreases width,
{
    if width > 0 {
        lemma_le_bytes_len(value / 256, (width - 1) as nat);
    }
}

/// What `bytes` spell fits into as many bytes.
pub proof fn lemma_le_value_bound(bytes: Seq<u8>)
    ensures
        le_value(bytes) < radix(bytes.len()),
    decreases bytes.len(),
{
    if bytes.len() > 0 {
        lemma_le_value_bound(bytes.drop_first());
    }
}

/// Reading back what was written gives the number that was written.
pub proof fn lemma_le_value_of_bytes(value: nat, width: nat)
    requires
        value < radix(width),
    ensures
        le_value(le_bytes(value, width)) == value,
    decreases width,
{
    if width > 0 {
        let rest = le_bytes(value / 256, (width - 1) as nat);
        lemma_le_value_of_bytes(value / 256, (width - 1) as nat);
        assert(le_bytes(value, width).drop_first() =~= rest);
    }
}

/// Writing back what was read gives the bytes that were read.
pub proof fn lemma_le_bytes_of_value(bytes: Seq<u8>)
    ensures
        le_bytes(le_value(bytes), bytes.len()) == bytes,
    decreases bytes.len(),
{
    if bytes.len() > 0 {
        let rest = bytes.drop_first();
        lemma_le_bytes_of_value(rest);
        assert(le_value(bytes) % 256 == bytes[0] as nat);
        assert(le_value(bytes) / 256 == le_value(rest));
        assert(le_bytes(le_value(bytes), bytes.len()) =~= bytes);
    }
}

/// A number that fits is the number that its two's complement stands
/// for.
pub proof fn lemma_signed_of_unsigned(value: int, width: nat)
    requires
        fits_signed(value, width),
    ensures
        unsigned(value, width) < radix(width),
        signed(unsigned(value, width), width) == value,
{
}

/// `byteorder::LittleEndian::read_uint`: the unsigned number spelled by the
/// first `width` bytes, least significant byte first. The call panics unless
/// `1 <= width <= 8` and the slice holds `width` bytes.
#[verifier::external_body]
fn le_read_uint(bytes: &[u8], width: usize) -> (r: u64)
    requires
        1 <= width <= 8,
        width <= bytes@.len(),
    ensures
        r == le_value(bytes@.subrange(0, width as int)),
{
    LittleEndian::read_uint(bytes, width)
}

/// `byteorder::LittleEndian::read_int`: as `read_uint`, with the result
/// taken as a two's complement number on `width` bytes.
#[verifier::external_body]
fn le_read_int(bytes: &[u8], width: usize) -> (r: i64)
    requires
        1 <= width <= 8,
        width <= bytes@.len(),
    ensures
        r == signed(le_value(bytes@.subrange(0, width as int)), width as nat),
{
    LittleEndian::read_int(bytes, width)
}

/// `byteorder::LittleEndian::write_uint` into a fresh buffer of `width`
/// bytes: the bytes of `value`, least significant first. The call panics
/// unless `width <= 8` and `value` fits into `width` bytes.
#[verifier::external_body]
fn le_uint_bytes(value: u64, width: usize) -> (r: Vec<u8>)
    requires
        1 <= width <= 8,
        value < radix(width as nat),
    ensures
        r@ == le_bytes(value as nat, width as nat),
{
    let mut bytes = vec![0u8; width];
    LittleEndian::write_uint(&mut bytes, value, width);
    bytes
}

/// `byteorder::LittleEndian::write_int` into a fresh buffer of `width`
/// bytes: the two's complement of `value` on `width` bytes, least
/// significant byte first.
#[verifier::external_body]
fn le_int_bytes(value: i64, width: usize) -> (r: Vec<u8>)
    requires
        1 <= width <= 8,
        fits_signed(value as int, width as nat),
    ensures
        r@ == le_bytes(unsigned(value as int, width as nat), width as nat),
{
    let mut bytes = vec![0u8; width];
    LittleEndian::write_int(&mut bytes, value, width);
    bytes
}

/// The unsigned number at `buffer[at .. at + width]`.
pub fn read_uint_at(buffer: &[u8], at: usize, width: usize) -> (r: u64)
    requires
        1 <= width <= 8,
        at + width <= buffer@.len(),
    ensures
        r == le_value(buffer@.subrange(at as int, at + width)),
        r < radix(width as nat),
{
    let len = buffer.len();
    assert(at + width <= len);
    let part = slice_subrange(buffer, at, at + width);
    proof {
        assert(part@.subrange(0, width as int) =~= part@);
        lemma_le_value_bound(part@);
    }
    le_read_uint(part, width)
}

/// The signed number at `buffer[at .. at + width]`.
pub fn read_int_at(buffer: &[u8], at: usize, width: usize) -> (r: i64)
    requires
        1 <= width <= 8,
        at + width <= buffer@.len(),
    ensures
        r == signed(le_value(buffer@.subrange(at as int, at + width)), width as nat),
        fits_signed(r as int, width as nat),
{
    let len = buffer.len();
    assert(at + width <= len);
    let part = slice_subrange(buffer, at, at + width);
    proof {
        assert(part@.subrange(0, width as int) =~= part@);
        lemma_le_value_bound(part@);
    }
    le_read_int(part, width)
}

/// Appends the `width` bytes of `value` to `out`.
pub fn push_uint(out: &mut Vec<u8>, value: u64, width: usize)
    requires
        1 <= width <= 8,
        value < radix(width as nat),
    ensures
        final(out)@ == old(out)@ + le_bytes(value as nat, width as nat),
{
    let mut bytes = le_uint_bytes(value, width);
    out.append(&mut bytes);
}

/// Appends the `width` bytes of the two's complement of `value` to `out`.
pub fn push_int(out: &mut Vec<u8>, value: i64, width: usize)
    requires
        1 <= width <= 8,
        fits_signed(value as int, width as nat),
    ensures
        final(out)@ == old(out)@ + le_bytes(unsigned(value as int, width as nat), width as nat),
{
    let mut bytes = le_int_bytes(value, width);
    out.append(&mut bytes);
}

} // verus!
