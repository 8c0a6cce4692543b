//! Payload variants of a netlink message and their codec.

use crate::endian::{i32_from_ne, i32_ne_bytes, push_i32, read_i32_at};
use crate::error::NetlinkError;
use crate::header::{encodes_header, header_bytes, header_of, NlMsgHeader};
use vstd::prelude::*;
use vstd::slice::slice_subrange;

verus! {

/// The body of a message; which variant it is follows from the message type.
#[derive(Clone, Debug, PartialEq, Eq)]
pub enum Payload<'a> {
    /// No bytes: the body of a done message.
    Empty,
    /// Application bytes, borrowed from the buffer they were decoded from.
    Data(&'a [u8]),
    /// An error message with code zero: the request with this header succeeded.
    Ack(NlMsgHeader),
    /// An error message: this error code, and the header of the request that failed.
    Error(i32, NlMsgHeader),
}

/// What a payload holds, as plain values.
pub enum PayloadView {
    Empty,
    Data(Seq<u8>),
    Ack(NlMsgHeader),
    Error(i32, NlMsgHeader),
}

impl<'a> View for Payload<'a> {
    type V = PayloadView;

    open spec fn view(&self) -> PayloadView {
        match *self {
            Payload::Empty => PayloadView::Empty,
            Payload::Data(b) => PayloadView::Data(b@),
            Payload::Ack(h) => PayloadView::Ack(h),
            Payload::Error(c, h) => PayloadView::Error(c, h),
        }
    }
}

/// A decoding result, with the payload seen as plain values.
pub open spec fn payload_result_view<'a>(r: Result<(Payload<'a>, usize), NetlinkError>) -> Result<
    (PayloadView, usize),
    NetlinkError,
> {
    match r {
        Ok((p, n)) => Ok((p@, n)),
        Err(e) => Err(e),
    }
}

/// Decoding `len` data bytes from the front of `s`.
pub open spec fn decode_data(s: Seq<u8>, len: usize) -> Result<(PayloadView, usize), NetlinkError> {
    if s.len() < len {
        Err(NetlinkError::TruncatedPayload)
    } else {
        Ok((PayloadView::Data(s.subrange(0, len as int)), len))
    }
}

/// Decoding the body of an error message from `s`: a 4-byte error code, then
/// the header of the request it answers. Code zero is an acknowledgement.
pub open spec fn decode_error(s: Seq<u8>) -> Result<(PayloadView, usize), NetlinkError> {
    if s.len() < 4 {
        Err(NetlinkError::TruncatedPayload)
    } else if s.len() < 20 {
        Err(NetlinkError::MalformedHeader)
    } else {
        let code = i32_from_ne(s.subrange(0, 4));
        let h = header_of(s.subrange(4, s.len() as int));
        if code == 0 {
            Ok((PayloadView::Ack(h), 20))
        } else {
            Ok((PayloadView::Error(code, h), 20))
        }
    }
}

/// The number of bytes that the encoding of `p` takes.
pub open spec fn payload_len(p: PayloadView) -> nat {
    match p {
        PayloadView::Empty => 0,
        PayloadView::Data(d) => d.len(),
        PayloadView::Ack(_) => 20,
        PayloadView::Error(_, _) => 20,
    }
}

/// The encoding of `p`: nothing for `Empty`, the bytes themselves for `Data`,
/// and the 4-byte error code followed by the header's encoding for `Ack`
/// (code zero) and `Error`.
pub open spec fn payload_bytes(p: PayloadView) -> Seq<u8> {
    match p {
        PayloadView::Empty => Seq::empty(),
        PayloadView::Data(d) => d,
        PayloadView::Ack(h) => i32_ne_bytes(0) + header_bytes(h),
        PayloadView::Error(c, h) => i32_ne_bytes(c) + header_bytes(h),
    }
}

/// `s` is the encoding of `p`, and an error body in it reads back as its code
/// and header; code zero is four zero bytes.
pub open spec fn encodes_payload(s: Seq<u8>, p: PayloadView) -> bool {
    &&& s == payload_bytes(p)
    &&& match p {
        PayloadView::Empty => s.len() == 0,
        PayloadView::Data(d) => s.len() == d.len(),
        PayloadView::Ack(h) => s.len() == 20 && s.subrange(0, 4) == seq![0u8, 0u8, 0u8, 0u8]
            && i32_from_ne(s.subrange(0, 4)) == 0 && encodes_header(s.subrange(4, 20), h),
        PayloadView::Error(c, h) => s.len() == 20 && (c == 0 ==> s.subrange(0, 4) == seq![
            0u8,
            0u8,
            0u8,
            0u8,
        ]) && i32_from_ne(s.subrange(0, 4)) == c && encodes_header(s.subrange(4, 20), h),
    }
}

impl<'a> Payload<'a> {
    /// Takes the first `len` bytes of `bytes` as data, without copying them.
    pub fn data(bytes: &'a [u8], len: usize) -> (r: Result<(Payload<'a>, usize), NetlinkError>)
        ensures
            payload_result_view(r) == decode_data(bytes@, len),
    {
        if bytes.len() < len {
            Err(NetlinkError::TruncatedPayload)
        } else {
            Ok((Payload::Data(slice_subrange(bytes, 0, len)), len))
        }
    }

    /// Decodes the body of an error message: an error code and an embedded
    /// header, as `Ack` when the code is zero and as `Error` otherwise.
    pub fn nlmsg_error(bytes: &'a [u8]) -> (r: Result<(Payload<'a>, usize), NetlinkError>)
        ensures
            payload_result_view(r) == decode_error(bytes@),
    {
        if bytes.len() < 4 {
            return Err(NetlinkError::TruncatedPayload);
        }
        let err = read_i32_at(bytes, 0);
        let n: usize = 4;
        match NlMsgHeader::from_bytes(slice_subrange(bytes, n, bytes.len())) {
            Err(e) => Err(e),
            Ok((hdr, n2)) => {
                if err == 0 {
                    Ok((Payload::Ack(hdr), n + n2))
                } else {
                    Ok((Payload::Error(err, hdr), n + n2))
                }
            },
        }
    }

    /// The encoding of this payload.
    pub fn bytes(&self) -> (r: Vec<u8>)
        ensures
            encodes_payload(r@, self@),
    {
        match *self {
            Payload::Empty => Vec::new(),
            Payload::Data(b) => {
                let mut out: Vec<u8> = Vec::new();
                let mut i: usize = 0;
                while i < b.len()
                    invariant
                        i <= b@.len(),
                        out@ == b@.subrange(0, i as int),
                    decreases b@.len() - i,
                {
                    out.push(b[i]);
                    i += 1;
                    assert(out@ =~= b@.subrange(0, i as int));
                }
                assert(out@ =~= b@);
                out
            },
            Payload::Ack(h) => Self::error_body(0, h),
            Payload::Error(code, h) => Self::error_body(code, h),
        }
    }

    /// A 4-byte error code followed by the header `h`.
    fn error_body(code: i32, h: NlMsgHeader) -> (r: Vec<u8>)
        ensures
            r@ == i32_ne_bytes(code) + header_bytes(h),
            r@.len() == 20,
            code == 0 ==> r@.subrange(0, 4) == seq![0u8, 0u8, 0u8, 0u8],
            i32_from_ne(r@.subrange(0, 4)) == code,
            encodes_header(r@.subrange(4, 20), h),
    {
        let mut out: Vec<u8> = Vec::new();
        push_i32(&mut out, code);
        let ghost first = out@;
        h.write_to(&mut out);
        proof {
            assert(first.subrange(0, 4) =~= first);
            assert(out@.subrange(0, 4) =~= first);
            assert(first =~= i32_ne_bytes(code));
        }
        out
    }
}

/// An acknowledgement of `h` and an error of code zero for `h` have the same
/// encoding: four zero bytes, then the encoding of `h`.
pub proof fn lemma_ack_is_zero_error(h: NlMsgHeader, ack: Seq<u8>, err: Seq<u8>)
    requires
        encodes_payload(ack, PayloadView::Ack(h)),
        encodes_payload(err, PayloadView::Error(0, h)),
    ensures
        ack == err,
        ack.subrange(0, 4) == seq![0u8, 0u8, 0u8, 0u8],
        ack.subrange(4, 20) == header_bytes(h),
{
}

/// Error body round trip: the encoding of `Error(code, h)` decodes to
/// `Error(code, h)` when the code is not zero and to `Ack(h)` when it is, and
/// the encoding of `Ack(h)` decodes to `Ack(h)`; 20 bytes are read in each case.
pub proof fn lemma_error_round_trip(s: Seq<u8>, p: PayloadView)
    requires
        encodes_payload(s, p),
        p is Ack || p is Error,
    ensures
        decode_error(s) == (match p {
            PayloadView::Error(c, h) => if c == 0 {
                Ok::<(PayloadView, usize), NetlinkError>((PayloadView::Ack(h), 20))
            } else {
                Ok((PayloadView::Error(c, h), 20))
            },
            PayloadView::Ack(h) => Ok((PayloadView::Ack(h), 20)),
            _ => Err(NetlinkError::MalformedHeader),
        }),
{
    assert(s.subrange(4, s.len() as int) =~= s.subrange(4, 20));
}

} // verus!
