//! Length arithmetic of the netlink wire format.

use vstd::prelude::*;

verus! {

/// Every netlink length is rounded up to a multiple of this many bytes.
pub const NLMSG_ALIGNTO: usize = 4;

/// Size of the raw header record on the wire: `u32 + u16 + u16 + u32 + u32`.
pub const NLMSG_HDR_SIZE: usize = 16;

/// `n` rounded up to the next multiple of four.
pub open spec fn align_spec(n: int) -> int {
    (n + 3) / 4 * 4
}

/// Rounds `len` up to a multiple of four, as `NLMSG_ALIGN` does.
pub fn nlmsg_align(len: usize) -> (r: usize)
    requires
        len + 3 <= usize::MAX,
    ensures
        r == align_spec(len as int),
        r % 4 == 0,
        len <= r < len + 4,
{
    let x: usize = len + (NLMSG_ALIGNTO - 1);
    let r: usize = x & !(NLMSG_ALIGNTO - 1);
    assert(r == x & !3usize);
    assert(x & !3usize <= x && x - (x & !3usize) < 4 && (x & !3usize) % 4 == 0) by (bit_vector);
    r
}

/// The header's size on the wire, aligned: 16 bytes.
pub fn nlmsg_header_length() -> (r: usize)
    ensures
        r == 16,
        r == align_spec(NLMSG_HDR_SIZE as int),
{
    nlmsg_align(NLMSG_HDR_SIZE)
}

/// The total length stored in a header whose payload has `len` bytes.
pub fn nlmsg_length(len: usize) -> (r: usize)
    requires
        len + 16 <= usize::MAX,
    ensures
        r == len + 16,
{
    let h = nlmsg_header_length();
    len + nlmsg_align(h)
}

/// Alignment: a multiple of four, no smaller than `n`, and less than four above it.
pub proof fn lemma_align_bounds(n: nat)
    ensures
        align_spec(n as int) % 4 == 0,
        n <= align_spec(n as int) < n + 4,
{
}

} // verus!
