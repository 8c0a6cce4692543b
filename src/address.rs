//! Netlink endpoint addresses.

use crate::error::NetlinkError;
use vstd::prelude::*;

verus! {

/// The address family tag of netlink sockets (`AF_NETLINK` on Linux).
pub const AF_NETLINK: u16 = 16;

/// A netlink endpoint: a port id and a mask of multicast groups.
#[derive(Clone, Copy, Debug, PartialEq, Eq, Structural)]
pub struct NetlinkAddr {
    pub pid: u32,
    pub groups: u32,
}

/// A socket address as the transport hands it over: family tag, port id and
/// group mask.
#[derive(Clone, Copy, Debug, PartialEq, Eq, Structural)]
pub struct RawNetlinkAddr {
    pub family: u16,
    pub pid: u32,
    pub groups: u32,
}

impl NetlinkAddr {
    /// The endpoint with port id `pid`, subscribed to the groups in `groups`.
    pub fn new(pid: u32, groups: u32) -> (r: NetlinkAddr)
        ensures
            r == (NetlinkAddr { pid, groups }),
    {
        NetlinkAddr { pid, groups }
    }

    /// The port id.
    pub fn pid(&self) -> (r: u32)
        ensures
            r == self.pid,
    {
        self.pid
    }

    /// The multicast group mask.
    pub fn groups(&self) -> (r: u32)
        ensures
            r == self.groups,
    {
        self.groups
    }

    /// The socket address of this endpoint, tagged as netlink.
    pub fn as_raw(&self) -> (r: RawNetlinkAddr)
        ensures
            r == (RawNetlinkAddr { family: AF_NETLINK, pid: self.pid, groups: self.groups }),
    {
        RawNetlinkAddr { family: AF_NETLINK, pid: self.pid, groups: self.groups }
    }

    /// The endpoint of a socket address; fails with `UnsupportedAddressFamily`
    /// when the address is not a netlink one.
    pub fn from_raw(raw: &RawNetlinkAddr) -> (r: Result<NetlinkAddr, NetlinkError>)
        ensures
            raw.family == AF_NETLINK ==> r == Ok::<NetlinkAddr, NetlinkError>(
                NetlinkAddr { pid: raw.pid, groups: raw.groups },
            ),
            raw.family != AF_NETLINK ==> r == Err::<NetlinkAddr, NetlinkError>(
                NetlinkError::UnsupportedAddressFamily,
            ),
    {
        if raw.family != AF_NETLINK {
            Err(NetlinkError::UnsupportedAddressFamily)
        } else {
            Ok(NetlinkAddr { pid: raw.pid, groups: raw.groups })
        }
    }
}

} // verus!
