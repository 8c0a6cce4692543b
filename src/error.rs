//! The ways in which decoding and transport can fail.

use vstd::prelude::*;

verus! {

/// A failure to decode a message, or a failure reported by the transport.
#[derive(Clone, Copy, Debug, PartialEq, Eq, Structural)]
pub enum NetlinkError {
    /// Fewer bytes remain than a header takes.
    MalformedHeader,
    /// A payload declares more bytes than remain.
    TruncatedPayload,
    /// A header's own length is shorter than a header or runs past the buffer,
    /// or a message is too long for its length field.
    InvalidMessageLength,
    /// A socket address whose family tag is not netlink's.
    UnsupportedAddressFamily,
    /// The operating system refused a socket operation, with this error number.
    Transport(i32),
}

} // verus!
