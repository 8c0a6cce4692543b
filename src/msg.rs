//! Whole messages: a header and a payload, and buffers of concatenated messages.

use crate::align::nlmsg_header_length;
use crate::error::NetlinkError;
use crate::header::{encodes_header, header_bytes, header_of, msg_type_of, MsgType, NlMsgHeader};
use crate::payload::{
    decode_data,
    decode_error,
    encodes_payload,
    payload_bytes,
    payload_len,
    payload_result_view,
    Payload,
    PayloadView,
};
use vstd::prelude::*;
use vstd::slice::slice_subrange;

verus! {

/// A netlink message: a header and the payload that its type calls for.
#[derive(Clone, Debug, PartialEq, Eq)]
pub struct Msg<'a> {
    pub header: NlMsgHeader,
    pub payload: Payload<'a>,
}

/// What a message holds, as plain values.
pub struct MsgView {
    pub header: NlMsgHeader,
    pub payload: PayloadView,
}

impl<'a> View for Msg<'a> {
    type V = MsgView;

    open spec fn view(&self) -> MsgView {
        MsgView { header: self.header, payload: self.payload@ }
    }
}

/// Decoding one message from the front of `s`; the second component is the
/// number of bytes read.
pub open spec fn decode_msg(s: Seq<u8>) -> Result<(MsgView, usize), NetlinkError> {
    if s.len() < 16 {
        Err(NetlinkError::MalformedHeader)
    } else {
        let h = header_of(s);
        let end = h.msg_length as int;
        if !(16 <= end && end <= s.len()) {
            Err(NetlinkError::InvalidMessageLength)
        } else {
            match msg_type_of(h.nl_type) {
                MsgType::Done => Ok((MsgView { header: h, payload: PayloadView::Empty }, 16)),
                MsgType::Error => match decode_error(s.subrange(16, end)) {
                    Ok((p, n)) => Ok((MsgView { header: h, payload: p }, (16 + n) as usize)),
                    Err(e) => Err(e),
                },
                _ => match decode_data(s.subrange(16, s.len() as int), (end - 16) as usize) {
                    Ok((p, n)) => Ok((MsgView { header: h, payload: p }, (16 + n) as usize)),
                    Err(e) => Err(e),
                },
            }
        }
    }
}

/// A decoding result, with the message seen as plain values.
pub open spec fn msg_result_view<'a>(r: Result<(Msg<'a>, usize), NetlinkError>) -> Result<
    (MsgView, usize),
    NetlinkError,
> {
    match r {
        Ok((m, n)) => Ok((m@, n)),
        Err(e) => Err(e),
    }
}

/// The number of bytes that the encoding of `m` takes.
pub open spec fn msg_len(m: MsgView) -> nat {
    16 + payload_len(m.payload)
}

/// The encoding of `m`: its header, with the length field set to the length
/// of the whole message, followed by the encoding of its payload.
pub open spec fn msg_bytes(m: MsgView) -> Seq<u8> {
    header_bytes(NlMsgHeader { msg_length: msg_len(m) as u32, ..m.header }) + payload_bytes(m.payload)
}

/// `s` is the encoding of `m`, and its header and payload parts read back as
/// the header (with its length set) and the payload of `m`.
pub open spec fn encodes_msg(s: Seq<u8>, m: MsgView) -> bool {
    &&& s == msg_bytes(m)
    &&& s.len() == msg_len(m)
    &&& s.len() <= u32::MAX
    &&& encodes_header(s.subrange(0, 16), NlMsgHeader { msg_length: s.len() as u32, ..m.header })
    &&& encodes_payload(s.subrange(16, s.len() as int), m.payload)
}

/// The messages that a buffer walk finds in `s`: decode one message after
/// another, stop before a done message, and stop at the first failure. (A
/// decoded message always takes between 16 and `s.len()` bytes; the test on
/// `n` only makes the recursion's termination evident.)
pub open spec fn walk(s: Seq<u8>) -> Seq<MsgView>
    decreases s.len(),
{
    match decode_msg(s) {
        Ok((m, n)) => if msg_type_of(m.header.nl_type) is Done || n == 0 || n > s.len() {
            Seq::empty()
        } else {
            seq![m] + walk(s.subrange(n as int, s.len() as int))
        },
        Err(_) => Seq::empty(),
    }
}

/// `b` is the encodings of `ms` one after the other, in order, each of which
/// reads back as its message.
pub open spec fn encodes_all(b: Seq<u8>, ms: Seq<MsgView>) -> bool {
    &&& b == ms.map_values(|m: MsgView| msg_bytes(m)).flatten()
    &&& forall|i: int| 0 <= i < ms.len() ==> #[trigger] encodes_msg(msg_bytes(ms[i]), ms[i])
}

impl<'a> Msg<'a> {
    /// Decodes one message from the front of `bytes`, checking that the
    /// length in its header covers the header and stays within `bytes`.
    pub fn from_bytes(bytes: &'a [u8]) -> (r: Result<(Msg<'a>, usize), NetlinkError>)
        ensures
            msg_result_view(r) == decode_msg(bytes@),
    {
        let (hdr, n) = match NlMsgHeader::from_bytes(bytes) {
            Ok(x) => x,
            Err(e) => return Err(e),
        };
        let end: usize = hdr.msg_length() as usize;
        if !(n <= end && end <= bytes.len()) {
            return Err(NetlinkError::InvalidMessageLength);
        }
        let decoded = match hdr.msg_type() {
            MsgType::Done => Ok((Payload::Empty, 0)),
            MsgType::Error => Payload::nlmsg_error(slice_subrange(bytes, n, end)),
            _ => {
                let msg_len: usize = end - nlmsg_header_length();
                Payload::data(slice_subrange(bytes, n, bytes.len()), msg_len)
            },
        };
        match decoded {
            Ok((payload, n2)) => Ok((Msg { header: hdr, payload }, n + n2)),
            Err(e) => Err(e),
        }
    }

    /// A message of this header and payload.
    pub fn new(hdr: NlMsgHeader, payload: Payload<'a>) -> (r: Msg<'a>)
        ensures
            r.header == hdr,
            r.payload == payload,
    {
        Msg { header: hdr, payload }
    }

    /// The encoding of this message: the header, with its length field set to
    /// the length of the whole message, then the payload. Fails with
    /// `InvalidMessageLength` when that length does not fit the length field.
    pub fn bytes(&self) -> (r: Result<Vec<u8>, NetlinkError>)
        ensures
            msg_len(self@) > u32::MAX <==> r is Err,
            r is Err ==> r == Err::<Vec<u8>, NetlinkError>(NetlinkError::InvalidMessageLength),
            r matches Ok(b) ==> b@ == msg_bytes(self@),
            r matches Ok(b) ==> encodes_msg(b@, self@),
    {
        let mut payload = self.payload.bytes();
        let hlen = nlmsg_header_length();
        if payload.len() > u32::MAX as usize - hlen {
            return Err(NetlinkError::InvalidMessageLength);
        }
        let total = (payload.len() + hlen) as u32;
        let hdr = NlMsgHeader { msg_length: total, ..self.header };
        let mut bytes: Vec<u8> = Vec::new();
        hdr.write_to(&mut bytes);
        let ghost head = bytes@;
        let ghost body = payload@;
        bytes.append(&mut payload);
        proof {
            assert(bytes@.subrange(0, 16) =~= head.subrange(0, 16));
            assert(head.subrange(0, 16) =~= head);
            assert(bytes@.subrange(16, bytes@.len() as int) =~= body);
            assert(head =~= header_bytes(hdr));
        }
        Ok(bytes)
    }

    /// The header.
    pub fn header(&self) -> (r: NlMsgHeader)
        ensures
            r == self.header,
    {
        self.header
    }

    /// The payload.
    pub fn payload(&self) -> (r: &Payload<'a>)
        ensures
            *r == self.payload,
    {
        &self.payload
    }
}

/// The messages of `ms`, as plain values.
pub open spec fn views<'a>(ms: Seq<Msg<'a>>) -> Seq<MsgView> {
    ms.map_values(|m: Msg<'a>| m@)
}

/// The payload of `m` is the one that its message type calls for: nothing for
/// done, an acknowledgement or a non-zero error code for error, data otherwise.
pub open spec fn payload_fits_type(m: MsgView) -> bool {
    match msg_type_of(m.header.nl_type) {
        MsgType::Done => m.payload is Empty,
        MsgType::Error => m.payload is Ack || (m.payload matches PayloadView::Error(c, _) && c != 0),
        _ => m.payload is Data,
    }
}

/// `m` with the length field of its header set to the length of its encoding.
pub open spec fn stamped(m: MsgView) -> MsgView {
    MsgView { header: NlMsgHeader { msg_length: msg_len(m) as u32, ..m.header }, payload: m.payload }
}

/// Message round trip: decoding the encoding of a message whose payload fits
/// its type, followed by any bytes, gives back the message, with the length
/// field of its header set, and reads exactly the encoding.
pub proof fn lemma_msg_round_trip(s: Seq<u8>, m: MsgView, rest: Seq<u8>)
    requires
        encodes_msg(s, m),
        payload_fits_type(m),
    ensures
        decode_msg(s + rest) == Ok::<(MsgView, usize), NetlinkError>((stamped(m), s.len() as usize)),
{
    let t = s + rest;
    let hs = s.subrange(0, 16);
    assert(t.subrange(0, 4) =~= hs.subrange(0, 4));
    assert(t.subrange(4, 6) =~= hs.subrange(4, 6));
    assert(t.subrange(6, 8) =~= hs.subrange(6, 8));
    assert(t.subrange(8, 12) =~= hs.subrange(8, 12));
    assert(t.subrange(12, 16) =~= hs.subrange(12, 16));
    assert(header_of(t) == header_of(hs));
    let end = s.len() as int;
    match msg_type_of(m.header.nl_type) {
        MsgType::Done => {},
        MsgType::Error => {
            assert(t.subrange(16, end) =~= s.subrange(16, end));
            crate::payload::lemma_error_round_trip(s.subrange(16, end), m.payload);
        },
        _ => {
            assert(t.subrange(16, t.len() as int).subrange(0, end - 16) =~= s.subrange(16, end));
        },
    }
}

/// Bounds rejection: a message whose header declares more bytes than the
/// buffer holds fails with `InvalidMessageLength`, and a buffer walk over
/// such a buffer finds no message.
pub proof fn lemma_bounds_rejection(s: Seq<u8>)
    requires
        s.len() >= 16,
        header_of(s).msg_length > s.len(),
    ensures
        decode_msg(s) == Err::<(MsgView, usize), NetlinkError>(NetlinkError::InvalidMessageLength),
        walk(s) == Seq::<MsgView>::empty(),
{
}

/// Buffer walk of a batch: a buffer that holds the encodings of the data
/// messages `ms` and then of a done message `d`, as `encode_messages` makes
/// it, followed by any bytes, walks to exactly the messages of `ms` in order
/// (with their lengths set), and to nothing from the done message on.
pub proof fn lemma_walk_batch(b: Seq<u8>, ms: Seq<MsgView>, d: MsgView, rest: Seq<u8>)
    requires
        encodes_all(b, ms.push(d)),
        forall|i: int| 0 <= i < ms.len() ==> (#[trigger] ms[i]).payload is Data && !(msg_type_of(
            ms[i].header.nl_type,
        ) is Done) && !(msg_type_of(ms[i].header.nl_type) is Error),
        msg_type_of(d.header.nl_type) is Done,
        d.payload is Empty,
    ensures
        walk(b + rest) == ms.map_values(|m: MsgView| stamped(m)),
{
    let all = ms.push(d);
    let parts = all.map_values(|m: MsgView| msg_bytes(m));
    let front = parts.drop_last();
    let last = parts.last();
    front.lemma_flatten_push(last);
    assert(front.push(last) =~= parts);
    assert forall|i: int| 0 <= i < ms.len() implies #[trigger] encodes_msg(front[i], ms[i]) by {
        assert(all[i] == ms[i]);
        assert(encodes_msg(msg_bytes(all[i]), all[i]));
    }
    assert(all[ms.len() as int] == d);
    assert(encodes_msg(msg_bytes(all[ms.len() as int]), all[ms.len() as int]));
    lemma_walk_parts(front, ms, last, d, rest);
    assert(b + rest =~= front.flatten() + last + rest);
}

/// The walk of a batch, with the encodings of its messages given one by one.
proof fn lemma_walk_parts(parts: Seq<Seq<u8>>, ms: Seq<MsgView>, done: Seq<u8>, d: MsgView, rest: Seq<u8>)
    requires
        parts.len() == ms.len(),
        forall|i: int| 0 <= i < ms.len() ==> #[trigger] encodes_msg(parts[i], ms[i]),
        forall|i: int| 0 <= i < ms.len() ==> (#[trigger] ms[i]).payload is Data && !(msg_type_of(
            ms[i].header.nl_type,
        ) is Done) && !(msg_type_of(ms[i].header.nl_type) is Error),
        encodes_msg(done, d),
        msg_type_of(d.header.nl_type) is Done,
        d.payload is Empty,
    ensures
        walk(parts.flatten() + done + rest) == ms.map_values(|m: MsgView| stamped(m)),
    decreases parts.len(),
{
    if parts.len() == 0 {
        assert(parts.flatten() + done + rest =~= done + rest);
        lemma_msg_round_trip(done, d, rest);
        assert(ms.map_values(|m: MsgView| stamped(m)) =~= Seq::<MsgView>::empty());
    } else {
        let tail_parts = parts.drop_first();
        let tail_ms = ms.drop_first();
        assert forall|i: int| 0 <= i < tail_ms.len() implies #[trigger] encodes_msg(tail_parts[i], tail_ms[i]) by {
            assert(encodes_msg(parts[i + 1], ms[i + 1]));
        }
        assert forall|i: int| 0 <= i < tail_ms.len() implies (#[trigger] tail_ms[i]).payload is Data && !(
        msg_type_of(tail_ms[i].header.nl_type) is Done) && !(msg_type_of(tail_ms[i].header.nl_type) is Error) by {
            assert(ms[i + 1] == tail_ms[i]);
        }
        lemma_walk_parts(tail_parts, tail_ms, done, d, rest);
        let remainder = tail_parts.flatten() + done + rest;
        let buf = parts.flatten() + done + rest;
        assert(buf =~= parts[0] + remainder);
        assert(encodes_msg(parts[0], ms[0]));
        assert(ms[0].payload is Data);
        lemma_msg_round_trip(parts[0], ms[0], remainder);
        let n = parts[0].len() as int;
        assert(buf.subrange(n, buf.len() as int) =~= remainder);
        assert(ms.map_values(|m: MsgView| stamped(m)) =~= seq![stamped(ms[0])] + tail_ms.map_values(
            |m: MsgView| stamped(m),
        ));
    }
}

/// A message decoded from `s` takes at least a header and stays within `s`.
proof fn lemma_decode_msg_consumed(s: Seq<u8>)
    ensures
        decode_msg(s) matches Ok((_, n)) ==> 16 <= n <= s.len(),
{
}

/// Decodes the messages of one received buffer, in order. The walk stops
/// before a done message, which is not returned, and ends quietly at the first
/// bytes that do not decode.
pub fn decode_messages<'a>(buf: &'a [u8]) -> (r: Vec<Msg<'a>>)
    ensures
        views(r@) == walk(buf@),
{
    let mut messages: Vec<Msg<'a>> = Vec::new();
    let mut n: usize = 0;
    let mut done = false;
    assert(buf@.subrange(0, buf@.len() as int) =~= buf@);
    while !done
        invariant
            n <= buf@.len(),
            views(messages@) + walk(buf@.subrange(n as int, buf@.len() as int)) == walk(buf@),
            done ==> walk(buf@.subrange(n as int, buf@.len() as int)) == Seq::<MsgView>::empty(),
        decreases buf@.len() - n + (if done { 0int } else { 1int }),
    {
        let rest = slice_subrange(buf, n, buf.len());
        proof {
            lemma_decode_msg_consumed(rest@);
        }
        match Msg::from_bytes(rest) {
            Err(_) => {
                done = true;
            },
            Ok((msg, k)) => {
                if let MsgType::Done = msg.header.msg_type() {
                    done = true;
                } else {
                    let ghost before = messages@;
                    proof {
                        assert(rest@.subrange(k as int, rest@.len() as int) =~= buf@.subrange(
                            n + k,
                            buf@.len() as int,
                        ));
                    }
                    messages.push(msg);
                    n = n + k;
                    proof {
                        assert(views(messages@) =~= views(before) + seq![msg@]);
                        assert(views(before) + seq![msg@] + walk(buf@.subrange(n as int, buf@.len() as int))
                            =~= views(before) + (seq![msg@] + walk(buf@.subrange(n as int, buf@.len() as int))));
                    }
                }
            },
        }
    }
    assert(views(messages@) + Seq::<MsgView>::empty() =~= views(messages@));
    messages
}

/// Encodes `messages` one after the other into one buffer, as a multipart
/// batch is sent. Fails with `InvalidMessageLength` when a message is too long
/// for its length field.
pub fn encode_messages<'a>(messages: &Vec<Msg<'a>>) -> (r: Result<Vec<u8>, NetlinkError>)
    ensures
        r is Err <==> exists|i: int| 0 <= i < messages@.len() && msg_len(#[trigger] messages@[i]@) > u32::MAX,
        r is Err ==> r == Err::<Vec<u8>, NetlinkError>(NetlinkError::InvalidMessageLength),
        r matches Ok(b) ==> b@ == views(messages@).map_values(|m: MsgView| msg_bytes(m)).flatten(),
        r matches Ok(b) ==> encodes_all(b@, views(messages@)),
{
    let mut out: Vec<u8> = Vec::new();
    let ghost mut parts: Seq<Seq<u8>> = Seq::empty();
    let mut i: usize = 0;
    while i < messages.len()
        invariant
            i <= messages@.len(),
            parts == Seq::new(i as nat, |j: int| msg_bytes(messages@[j]@)),
            forall|j: int| 0 <= j < i ==> #[trigger] encodes_msg(msg_bytes(messages@[j]@), messages@[j]@),
            forall|j: int| 0 <= j < i ==> msg_len(#[trigger] messages@[j]@) <= u32::MAX,
            out@ == parts.flatten(),
        decreases messages@.len() - i,
    {
        let mut b = match messages[i].bytes() {
            Ok(b) => b,
            Err(e) => return Err(e),
        };
        let ghost bv = b@;
        proof {
            parts.lemma_flatten_push(bv);
            parts = parts.push(bv);
            assert(parts =~= Seq::new((i + 1) as nat, |j: int| msg_bytes(messages@[j]@)));
        }
        out.append(&mut b);
        i += 1;
    }
    proof {
        assert(parts =~= views(messages@).map_values(|m: MsgView| msg_bytes(m)));
        assert forall|j: int| 0 <= j < views(messages@).len() implies #[trigger] encodes_msg(
            msg_bytes(views(messages@)[j]),
            views(messages@)[j],
        ) by {
            assert(encodes_msg(msg_bytes(messages@[j]@), messages@[j]@));
        }
    }
    Ok(out)
}

} // verus!
