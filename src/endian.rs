//! Reading and writing integers in the byte order of the target.
//!
//! Netlink carries its integers in the host's own byte order. Which order that
//! is stays open here: it is fixed for each build, and the contracts only say
//! that what is written is read back as the same value.

use byteorder::{ByteOrder, NativeEndian};
use vstd::prelude::*;

verus! {

/// The `u16` that two bytes hold in the target's byte order.
pub uninterp spec fn u16_from_ne(b: Seq<u8>) -> u16;

/// The `u32` that four bytes hold in the target's byte order.
pub uninterp spec fn u32_from_ne(b: Seq<u8>) -> u32;

/// The `i32` that four bytes hold in the target's byte order.
pub uninterp spec fn i32_from_ne(b: Seq<u8>) -> i32;

/// The two bytes that encode `n` in the target's byte order.
pub uninterp spec fn u16_ne_bytes(n: u16) -> Seq<u8>;

/// The four bytes that encode `n` in the target's byte order.
pub uninterp spec fn u32_ne_bytes(n: u32) -> Seq<u8>;

/// The four bytes that encode `n` in the target's byte order.
pub uninterp spec fn i32_ne_bytes(n: i32) -> Seq<u8>;

/// Relies on byteorder's `NativeEndian::read_u16`: reads the first two bytes.
#[verifier::external_body]
pub(crate) fn read_u16_at(b: &[u8], at: usize) -> (r: u16)
    requires
        at + 2 <= b@.len(),
    ensures
        r == u16_from_ne(b@.subrange(at as int, at + 2)),
{
    <NativeEndian as ByteOrder>::read_u16(&b[at..at + 2])
}

/// Relies on byteorder's `NativeEndian::read_u32`: reads the first four bytes.
#[verifier::external_body]
pub(crate) fn read_u32_at(b: &[u8], at: usize) -> (r: u32)
    requires
        at + 4 <= b@.len(),
    ensures
        r == u32_from_ne(b@.subrange(at as int, at + 4)),
{
    <NativeEndian as ByteOrder>::read_u32(&b[at..at + 4])
}

/// Relies on byteorder's `NativeEndian::read_i32`: reads the first four bytes.
#[verifier::external_body]
pub(crate) fn read_i32_at(b: &[u8], at: usize) -> (r: i32)
    requires
        at + 4 <= b@.len(),
    ensures
        r == i32_from_ne(b@.subrange(at as int, at + 4)),
{
    <NativeEndian as ByteOrder>::read_i32(&b[at..at + 4])
}

/// Relies on byteorder's `NativeEndian::write_u16`: appends the two bytes
/// of `n` in the target's byte order, which `read_u16` turns back into `n`.
#[verifier::external_body]
pub(crate) fn push_u16(out: &mut Vec<u8>, n: u16)
    ensures
        final(out)@ == old(out)@ + u16_ne_bytes(n),
        final(out)@.len() == old(out)@.len() + 2,
        final(out)@.subrange(0, old(out)@.len() as int) == old(out)@,
        u16_from_ne(final(out)@.subrange(old(out)@.len() as int, old(out)@.len() + 2 as int)) == n,
{
    let mut b = [0u8; 2];
    <NativeEndian as ByteOrder>::write_u16(&mut b, n);
    out.extend_from_slice(&b);
}

/// Relies on byteorder's `NativeEndian::write_u32`: appends the four bytes
/// of `n` in the target's byte order, which `read_u32` turns back into `n`.
#[verifier::external_body]
pub(crate) fn push_u32(out: &mut Vec<u8>, n: u32)
    ensures
        final(out)@ == old(out)@ + u32_ne_bytes(n),
        final(out)@.len() == old(out)@.len() + 4,
        final(out)@.subrange(0, old(out)@.len() as int) == old(out)@,
        u32_from_ne(final(out)@.subrange(old(out)@.len() as int, old(out)@.len() + 4 as int)) == n,
{
    let mut b = [0u8; 4];
    <NativeEndian as ByteOrder>::write_u32(&mut b, n);
    out.extend_from_slice(&b);
}

/// Relies on byteorder's `NativeEndian::write_i32`: appends the four bytes
/// of `n` in the target's byte order, which `read_i32` turns back into `n`.
/// Zero is four zero bytes in either byte order.
#[verifier::external_body]
pub(crate) fn push_i32(out: &mut Vec<u8>, n: i32)
    ensures
        final(out)@ == old(out)@ + i32_ne_bytes(n),
        final(out)@.len() == old(out)@.len() + 4,
        final(out)@.subrange(0, old(out)@.len() as int) == old(out)@,
        i32_from_ne(final(out)@.subrange(old(out)@.len() as int, old(out)@.len() + 4 as int)) == n,
        n == 0 ==> final(out)@.subrange(old(out)@.len() as int, old(out)@.len() + 4 as int)
            == seq![0u8, 0u8, 0u8, 0u8],
{
    let mut b = [0u8; 4];
    <NativeEndian as ByteOrder>::write_i32(&mut b, n);
    out.extend_from_slice(&b);
}

} // verus!
