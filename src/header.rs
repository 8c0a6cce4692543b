//! The fixed 16-byte netlink message header.

use crate::align::nlmsg_header_length;
use crate::endian::{
    push_u16,
    push_u32,
    read_u16_at,
    read_u32_at,
    u16_from_ne,
    u16_ne_bytes,
    u32_from_ne,
    u32_ne_bytes,
};
use crate::error::NetlinkError;
use vstd::prelude::*;

verus! {

/// Message type of a request or of application data.
pub const NLMSG_REQUEST: u16 = 0;

/// Message type of an error or acknowledgement (`NLMSG_ERROR`).
pub const NLMSG_ERROR: u16 = 2;

/// Message type that ends a multipart batch (`NLMSG_DONE`).
pub const NLMSG_DONE: u16 = 3;

/// Flag bit: the message is one part of a multipart reply (`NLM_F_MULTI`).
pub const NLM_F_MULTI: u16 = 0x2;

/// Flag bits of a dump request: request, root and match (`NLM_F_REQUEST | NLM_F_DUMP`).
pub const NLM_F_DUMP: u16 = 0x301;

/// The message type, as far as the protocol branches on it.
#[derive(Clone, Copy, Debug, PartialEq, Eq, Structural)]
pub enum MsgType {
    /// A request or application data (type 0).
    Request,
    /// An error or an acknowledgement.
    Error,
    /// The end of a multipart batch.
    Done,
    /// Any other type; handled as data.
    Other(u16),
}

/// The message type that the raw type number `t` stands for.
pub open spec fn msg_type_of(t: u16) -> MsgType {
    if t == NLMSG_REQUEST {
        MsgType::Request
    } else if t == NLMSG_ERROR {
        MsgType::Error
    } else if t == NLMSG_DONE {
        MsgType::Done
    } else {
        MsgType::Other(t)
    }
}

/// A netlink message header: total length, type, flags, sequence number and port id.
#[derive(Clone, Copy, Debug, PartialEq, Eq, Structural)]
pub struct NlMsgHeader {
    pub msg_length: u32,
    pub nl_type: u16,
    pub flags: u16,
    pub seq: u32,
    pub pid: u32,
}

/// The header that the first 16 bytes of `s` encode.
pub open spec fn header_of(s: Seq<u8>) -> NlMsgHeader {
    NlMsgHeader {
        msg_length: u32_from_ne(s.subrange(0, 4)),
        nl_type: u16_from_ne(s.subrange(4, 6)),
        flags: u16_from_ne(s.subrange(6, 8)),
        seq: u32_from_ne(s.subrange(8, 12)),
        pid: u32_from_ne(s.subrange(12, 16)),
    }
}

/// Decoding a header from the front of `s`; the second component is the
/// number of bytes read.
pub open spec fn decode_header(s: Seq<u8>) -> Result<(NlMsgHeader, usize), NetlinkError> {
    if s.len() < 16 {
        Err(NetlinkError::MalformedHeader)
    } else {
        Ok((header_of(s), 16))
    }
}

/// The encoding of `h`: its fields in order, each in the target's byte order.
pub open spec fn header_bytes(h: NlMsgHeader) -> Seq<u8> {
    u32_ne_bytes(h.msg_length) + u16_ne_bytes(h.nl_type) + u16_ne_bytes(h.flags) + u32_ne_bytes(h.seq)
        + u32_ne_bytes(h.pid)
}

/// `s` is the encoding of `h`: 16 bytes, which decode back to `h`.
pub open spec fn encodes_header(s: Seq<u8>, h: NlMsgHeader) -> bool {
    s == header_bytes(h) && s.len() == 16 && header_of(s) == h
}

impl NlMsgHeader {
    /// The total length stored for a payload of `len` bytes, as the 32-bit
    /// length field holds it.
    pub open spec fn length_for(len: u32) -> u32 {
        if len + 16 > u32::MAX {
            (len + 16 - 0x1_0000_0000) as u32
        } else {
            (len + 16) as u32
        }
    }

    /// A header for a request: type request, no flags, no payload.
    pub fn request() -> (r: NlMsgHeader)
        ensures
            r == (NlMsgHeader { msg_length: 16, nl_type: NLMSG_REQUEST, flags: 0, seq: 0, pid: 0 }),
    {
        NlMsgHeader {
            msg_length: nlmsg_header_length() as u32,
            nl_type: NLMSG_REQUEST,
            flags: 0,
            seq: 0,
            pid: 0,
        }
    }

    /// A header for the message that ends a multipart batch: type done, no payload.
    pub fn done() -> (r: NlMsgHeader)
        ensures
            r == (NlMsgHeader { msg_length: 16, nl_type: NLMSG_DONE, flags: 0, seq: 0, pid: 0 }),
    {
        NlMsgHeader {
            msg_length: nlmsg_header_length() as u32,
            nl_type: NLMSG_DONE,
            flags: 0,
            seq: 0,
            pid: 0,
        }
    }

    /// A header for an error message, whose payload is an error code and an
    /// embedded header: 16 + 4 + 16 bytes in all.
    pub fn error() -> (r: NlMsgHeader)
        ensures
            r == (NlMsgHeader { msg_length: 36, nl_type: NLMSG_ERROR, flags: 0, seq: 0, pid: 0 }),
    {
        let h = nlmsg_header_length();
        NlMsgHeader { msg_length: (h + 4 + h) as u32, nl_type: NLMSG_ERROR, flags: 0, seq: 0, pid: 0 }
    }

    /// Decodes a header from the first 16 bytes of `bytes`; the second result
    /// is the number of bytes read.
    pub fn from_bytes(bytes: &[u8]) -> (r: Result<(NlMsgHeader, usize), NetlinkError>)
        ensures
            r == decode_header(bytes@),
    {
        if bytes.len() < nlmsg_header_length() {
            return Err(NetlinkError::MalformedHeader);
        }
        let msg_length = read_u32_at(bytes, 0);
        let nl_type = read_u16_at(bytes, 4);
        let flags = read_u16_at(bytes, 6);
        let seq = read_u32_at(bytes, 8);
        let pid = read_u32_at(bytes, 12);
        Ok((NlMsgHeader { msg_length, nl_type, flags, seq, pid }, nlmsg_header_length()))
    }

    /// Appends the 16-byte encoding of this header to `out`.
    pub fn write_to(&self, out: &mut Vec<u8>)
        ensures
            final(out)@ == old(out)@ + header_bytes(*self),
            final(out)@.len() == old(out)@.len() + 16,
            final(out)@.subrange(0, old(out)@.len() as int) == old(out)@,
            encodes_header(final(out)@.subrange(old(out)@.len() as int, old(out)@.len() + 16int), *self),
    {
        let ghost s0 = out@;
        let ghost n = s0.len() as int;
        push_u32(out, self.msg_length);
        let ghost s1 = out@;
        push_u16(out, self.nl_type);
        let ghost s2 = out@;
        push_u16(out, self.flags);
        let ghost s3 = out@;
        push_u32(out, self.seq);
        let ghost s4 = out@;
        push_u32(out, self.pid);
        proof {
            let s5 = out@;
            lemma_prefix_trans(s3, s4, s5);
            lemma_prefix_trans(s2, s3, s5);
            lemma_prefix_trans(s1, s2, s5);
            lemma_prefix_kept(s1, s5, n, n + 4);
            lemma_prefix_kept(s2, s5, n + 4, n + 6);
            lemma_prefix_kept(s3, s5, n + 6, n + 8);
            lemma_prefix_kept(s4, s5, n + 8, n + 12);
            lemma_prefix_kept(s1, s5, 0, n);
            let s = s5.subrange(n, n + 16);
            assert(s.subrange(0, 4) =~= s5.subrange(n, n + 4));
            assert(s.subrange(4, 6) =~= s5.subrange(n + 4, n + 6));
            assert(s.subrange(6, 8) =~= s5.subrange(n + 6, n + 8));
            assert(s.subrange(8, 12) =~= s5.subrange(n + 8, n + 12));
            assert(s.subrange(12, 16) =~= s5.subrange(n + 12, n + 16));
            assert(s1.subrange(0, n) =~= s0);
            assert(s5 =~= s0 + header_bytes(*self));
            assert(s =~= header_bytes(*self));
        }
    }

    /// The 16-byte encoding of this header.
    pub fn bytes(&self) -> (r: Vec<u8>)
        ensures
            encodes_header(r@, *self),
    {
        let mut out: Vec<u8> = Vec::new();
        self.write_to(&mut out);
        assert(out@.subrange(0, 16) =~= out@);
        out
    }

    /// The message type.
    pub fn msg_type(&self) -> (r: MsgType)
        ensures
            r == msg_type_of(self.nl_type),
    {
        if self.nl_type == NLMSG_REQUEST {
            MsgType::Request
        } else if self.nl_type == NLMSG_ERROR {
            MsgType::Error
        } else if self.nl_type == NLMSG_DONE {
            MsgType::Done
        } else {
            MsgType::Other(self.nl_type)
        }
    }

    /// The total length of the message, header included.
    pub fn msg_length(&self) -> (r: u32)
        ensures
            r == self.msg_length,
    {
        self.msg_length
    }

    /// Sets the length for a payload of `len` bytes: `len` plus the header's 16.
    pub fn data_length(&mut self, len: u32) -> (r: &mut NlMsgHeader)
        ensures
            *r == (NlMsgHeader { msg_length: Self::length_for(len), ..*old(self) }),
            *final(self) == *final(r),
    {
        self.msg_length = len.wrapping_add(nlmsg_header_length() as u32);
        self
    }

    /// Marks the message as one part of a multipart reply.
    pub fn multipart(&mut self) -> (r: &mut NlMsgHeader)
        ensures
            *r == (NlMsgHeader { flags: old(self).flags | NLM_F_MULTI, ..*old(self) }),
            *final(self) == *final(r),
    {
        self.flags = self.flags | NLM_F_MULTI;
        self
    }

    /// Marks the message as a dump request.
    pub fn dump(&mut self) -> (r: &mut NlMsgHeader)
        ensures
            *r == (NlMsgHeader { flags: old(self).flags | NLM_F_DUMP, ..*old(self) }),
            *final(self) == *final(r),
    {
        self.flags = self.flags | NLM_F_DUMP;
        self
    }

    /// Sets the sequence number.
    pub fn seq(&mut self, n: u32) -> (r: &mut NlMsgHeader)
        ensures
            *r == (NlMsgHeader { seq: n, ..*old(self) }),
            *final(self) == *final(r),
    {
        self.seq = n;
        self
    }

    /// Sets the port id.
    pub fn pid(&mut self, n: u32) -> (r: &mut NlMsgHeader)
        ensures
            *r == (NlMsgHeader { pid: n, ..*old(self) }),
            *final(self) == *final(r),
    {
        self.pid = n;
        self
    }
}

/// Appending to a sequence keeps every range of what was there.
proof fn lemma_prefix_kept(a: Seq<u8>, b: Seq<u8>, i: int, j: int)
    requires
        0 <= i <= j <= a.len() <= b.len(),
        b.subrange(0, a.len() as int) == a,
    ensures
        b.subrange(i, j) == a.subrange(i, j),
{
    assert(b.subrange(i, j) =~= a.subrange(i, j)) by {
        assert forall|k: int| 0 <= k < j - i implies b.subrange(i, j)[k] == a.subrange(i, j)[k] by {
            assert(b.subrange(0, a.len() as int)[i + k] == b[i + k]);
        }
    }
}

/// A prefix of a prefix is a prefix.
proof fn lemma_prefix_trans(a: Seq<u8>, b: Seq<u8>, c: Seq<u8>)
    requires
        a.len() <= b.len() <= c.len(),
        b.subrange(0, a.len() as int) == a,
        c.subrange(0, b.len() as int) == b,
    ensures
        c.subrange(0, a.len() as int) == a,
{
    lemma_prefix_kept(b, c, 0, a.len() as int);
    assert(b.subrange(0, a.len() as int) =~= a);
}

/// Header round trip: decoding the encoding of any header gives back that
/// header and the 16 bytes that were read.
pub proof fn lemma_header_round_trip(s: Seq<u8>, h: NlMsgHeader)
    requires
        encodes_header(s, h),
    ensures
        decode_header(s) == Ok::<(NlMsgHeader, usize), NetlinkError>((h, 16)),
{
}

} // verus!
