//! What a socket session computes around its transport calls: the reusable
//! receive buffer and the decoding of each received datagram.

use crate::address::{NetlinkAddr, RawNetlinkAddr, AF_NETLINK};
use crate::error::NetlinkError;
use crate::msg::{decode_messages, views, walk, Msg};
use vstd::prelude::*;
use vstd::slice::slice_subrange;

verus! {

/// Size of the buffer that a session receives datagrams into.
pub const RECV_BUFFER_SIZE: usize = 4096;

/// A zeroed receive buffer, allocated once per session and reused by every receive.
pub fn recv_buffer() -> (r: Vec<u8>)
    ensures
        r@.len() == RECV_BUFFER_SIZE,
        forall|i: int| 0 <= i < r@.len() ==> r@[i] == 0,
{
    let mut buf: Vec<u8> = Vec::new();
    let mut i: usize = 0;
    while i < RECV_BUFFER_SIZE
        invariant
            i <= RECV_BUFFER_SIZE,
            buf@.len() == i,
            forall|j: int| 0 <= j < i ==> buf@[j] == 0,
        decreases RECV_BUFFER_SIZE - i,
    {
        buf.push(0u8);
        i += 1;
    }
    buf
}

/// Handles one received datagram: the first `filled` bytes of `buf`, sent
/// from `sender`. Fails with `UnsupportedAddressFamily` when the sender is not
/// a netlink address; otherwise gives the sender and the messages that a
/// buffer walk finds in those bytes.
pub fn decode_received<'a>(sender: &RawNetlinkAddr, buf: &'a [u8], filled: usize) -> (r: Result<
    (NetlinkAddr, Vec<Msg<'a>>),
    NetlinkError,
>)
    requires
        filled <= buf@.len(),
    ensures
        sender.family != AF_NETLINK ==> r == Err::<(NetlinkAddr, Vec<Msg<'a>>), NetlinkError>(
            NetlinkError::UnsupportedAddressFamily,
        ),
        sender.family == AF_NETLINK ==> (r matches Ok((a, ms)) && a == (NetlinkAddr {
            pid: sender.pid,
            groups: sender.groups,
        }) && views(ms@) == walk(buf@.subrange(0, filled as int))),
{
    let addr = match NetlinkAddr::from_raw(sender) {
        Ok(a) => a,
        Err(e) => return Err(e),
    };
    let messages = decode_messages(slice_subrange(buf, 0, filled));
    Ok((addr, messages))
}

} // verus!
