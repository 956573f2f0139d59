//! Numbers as bytes in the byte order of the host.
//!
//! Device registers and the interrupt protocol carry numbers the way the host
//! CPU stores them. The layout is given here for either byte order; which of
//! the two the host has is left open, as `vstd::endian::endianness` leaves it.

use byteorder::{ByteOrder, NativeEndian};
use vstd::endian::{endianness, Endian};
use vstd::prelude::*;

verus! {

/// The `width` low bytes of `value`, least significant byte first.
pub open spec fn le_bytes(value: nat, width: nat) -> Seq<u8>
    decreases width,
{
    if width == 0 {
        Seq::empty()
    } else {
        seq![(value % 256) as u8] + le_bytes(value / 256, (width - 1) as nat)
    }
}

/// The number that `bytes` hold, least significant byte first.
pub open spec fn le_value(bytes: Seq<u8>) -> nat
    decreases bytes.len(),
{
    if bytes.len() == 0 {
        0
    } else {
        bytes[0] as nat + 256 * le_value(bytes.drop_first())
    }
}

/// `value` can be written in `width` bytes.
pub open spec fn fits(value: nat, width: nat) -> bool
    decreases width,
{
    if width == 0 {
        value == 0
    } else {
        fits(value / 256, (width - 1) as nat)
    }
}

/// The `width` bytes of `value` in the byte order of the host.
pub open spec fn native_bytes(value: nat, width: nat) -> Seq<u8> {
    match endianness() {
        Endian::Little => le_bytes(value, width),
        Endian::Big => le_bytes(value, width).reverse(),
    }
}

/// The number that `bytes` hold in the byte order of the host.
pub open spec fn native_value(bytes: Seq<u8>) -> nat {
    match endianness() {
        Endian::Little => le_value(bytes),
        Endian::Big => le_value(bytes.reverse()),
    }
}

/// Writing a number that fits and reading the bytes gives the number back.
pub proof fn lemma_le_round_trip(value: nat, width: nat)
    requires
        fits(value, width),
    ensures
        le_bytes(value, width).len() == width,
        le_value(le_bytes(value, width)) == value,
    decreases width,
{
    if width > 0 {
        lemma_le_round_trip(value / 256, (width - 1) as nat);
        let bytes = le_bytes(value, width);
        assert(bytes.drop_first() =~= le_bytes(value / 256, (width - 1) as nat));
    }
}

/// The bytes of a number are as many as asked for.
pub proof fn lemma_native_bytes_len(value: nat, width: nat)
    ensures
        native_bytes(value, width).len() == width,
        le_bytes(value, width).len() == width,
    decreases width,
{
    if width > 0 {
        lemma_native_bytes_len(value / 256, (width - 1) as nat);
    }
}

/// In the byte order of the host, writing a number that fits and reading the
/// bytes gives the number back.
pub proof fn lemma_native_round_trip(value: nat, width: nat)
    requires
        fits(value, width),
    ensures
        native_bytes(value, width).len() == width,
        native_value(native_bytes(value, width)) == value,
{
    lemma_le_round_trip(value, width);
    let bytes = le_bytes(value, width);
    assert(bytes.reverse().reverse() =~= bytes);
}

/// Every 32-bit number fits in four bytes.
pub proof fn lemma_u32_fits(value: u32)
    ensures
        fits(value as nat, 4),
{
    reveal_with_fuel(fits, 5);
}

/// Every 64-bit number fits in eight bytes.
pub proof fn lemma_u64_fits(value: u64)
    ensures
        fits(value as nat, 8),
{
    reveal_with_fuel(fits, 9);
}

/// Every 128-bit number fits in sixteen bytes.
pub proof fn lemma_u128_fits(value: u128)
    ensures
        fits(value as nat, 16),
{
    reveal_with_fuel(fits, 17);
}

/// `u32::to_ne_bytes` of std: the four bytes of `value` in the byte order of
/// the host.
#[verifier::external_body]
pub(crate) fn u32_to_native(value: u32) -> (bytes: [u8; 4])
    ensures
        bytes@ == native_bytes(value as nat, 4),
{
    value.to_ne_bytes()
}

/// `u32::from_ne_bytes` of std: the number that four bytes hold in the byte
/// order of the host.
#[verifier::external_body]
pub(crate) fn u32_from_native(bytes: [u8; 4]) -> (value: u32)
    ensures
        value as nat == native_value(bytes@),
{
    u32::from_ne_bytes(bytes)
}

/// `byteorder::NativeEndian::read_u32`: the number that the first four bytes
/// of `buf` hold in the byte order of the host. The call panics on a shorter
/// buffer.
#[verifier::external_body]
pub(crate) fn native_read_u32(buf: &[u8]) -> (value: u32)
    requires
        buf@.len() >= 4,
    ensures
        value as nat == native_value(buf@.subrange(0, 4)),
{
    NativeEndian::read_u32(buf)
}

/// `byteorder::NativeEndian::write_u32`: puts the four bytes of `value`, in
/// the byte order of the host, at the start of `buf` and leaves the rest of
/// `buf` as it was. The call panics on a shorter buffer.
#[verifier::external_body]
pub(crate) fn native_write_u32(buf: &mut [u8], value: u32)
    requires
        old(buf)@.len() >= 4,
    ensures
        final(buf)@ == native_bytes(value as nat, 4) + old(buf)@.subrange(
            4,
            old(buf)@.len() as int,
        ),
{
    NativeEndian::write_u32(buf, value)
}

/// `byteorder::NativeEndian::write_u64`: puts the eight bytes of `value`, in
/// the byte order of the host, at the start of `buf` and leaves the rest of
/// `buf` as it was. The call panics on a shorter buffer.
#[verifier::external_body]
pub(crate) fn native_write_u64(buf: &mut [u8], value: u64)
    requires
        old(buf)@.len() >= 8,
    ensures
        final(buf)@ == native_bytes(value as nat, 8) + old(buf)@.subrange(
            8,
            old(buf)@.len() as int,
        ),
{
    NativeEndian::write_u64(buf, value)
}

/// `byteorder::NativeEndian::write_u128`: puts the sixteen bytes of `value`,
/// in the byte order of the host, at the start of `buf` and leaves the rest of
/// `buf` as it was. The call panics on a shorter buffer.
#[verifier::external_body]
pub(crate) fn native_write_u128(buf: &mut [u8], value: u128)
    requires
        old(buf)@.len() >= 16,
    ensures
        final(buf)@ == native_bytes(value as nat, 16) + old(buf)@.subrange(
            16,
            old(buf)@.len() as int,
        ),
{
    NativeEndian::write_u128(buf, value)
}

} // verus!
