use byteorder::{NativeEndian, WriteBytesExt};
use netlink::{
    decode_messages, decode_received, encode_messages, nlmsg_align, nlmsg_header_length,
    nlmsg_length, recv_buffer, Msg, MsgType, NetlinkAddr, NetlinkError, NlMsgHeader, Payload,
    RawNetlinkAddr, AF_NETLINK, RECV_BUFFER_SIZE,
};
use std::io::Write;

#[test]
fn test_payload_decode() {
    let bytes = [0, 1, 2, 3, 4, 5];
    let (payload, n) = Payload::data(&bytes, bytes.len()).unwrap();
    assert_eq!(n, bytes.len());

    if let Payload::Data(b) = payload {
        assert_eq!(b, &bytes);
    } else {
        panic!("payload is not Data enum");
    }
}

#[test]
fn test_payload_decode_with_err() {
    let mut bytes = vec![];
    bytes.write_u32::<NativeEndian>(1).unwrap();

    // Little endian only right now
    let expected = [20, 0, 0, 0, 0, 0, 1, 3, 1, 0, 0, 0, 9, 0, 0, 0];
    let mut hdr = NlMsgHeader::request();
    hdr.data_length(4).pid(9).seq(1).dump();

    let _ = bytes.write(&expected).unwrap();

    let (p, n) = Payload::nlmsg_error(&bytes).unwrap();

    assert_eq!(n, bytes.len());
    if let Payload::Error(_, h) = p {
        assert_eq!(h, hdr);
    } else {
        panic!("payload is not Err enum");
    }
}

#[test]
fn test_payload_decode_with_ack() {
    let mut bytes = vec![];
    bytes.write_u32::<NativeEndian>(0).unwrap();

    let mut hdr = NlMsgHeader::request();
    hdr.data_length(4).pid(9).seq(1).dump();

    let _ = bytes.write(&hdr.bytes()).unwrap();

    let (p, n) = Payload::nlmsg_error(&bytes).unwrap();

    assert_eq!(n, bytes.len());
    if let Payload::Ack(h) = p {
        assert_eq!(h, hdr);
    } else {
        panic!("payload is not Ack enum");
    }
}

#[test]
fn test_msg_decode() {
    let mut hdr = NlMsgHeader::request();
    hdr.data_length(4).pid(9).seq(1).dump();
    let hdr_bytes = hdr.bytes();

    let data = [0, 1, 2, 3];

    let mut bytes = vec![];
    let _ = bytes.write(&hdr_bytes).unwrap();
    let _ = bytes.write(&data).unwrap();
    // Random data
    let _ = bytes.write(&[1, 1, 1, 1, 1, 1, 1]).unwrap();

    let (msg, n) = Msg::from_bytes(&bytes).unwrap();
    assert_eq!(n, hdr_bytes.len() + data.len());
    assert_eq!(hdr, msg.header());

    if let &Payload::Data(b) = msg.payload() {
        assert_eq!(b, &data);
    } else {
        panic!("msg is not Data enum");
    }
}

#[test]
fn test_msg_decode_with_err() {
    let mut hdr = NlMsgHeader::error();
    hdr.pid(9).seq(1);
    let hdr_bytes = hdr.bytes();

    let mut bytes = vec![];

    let _ = bytes.write(&hdr_bytes).unwrap();

    bytes.write_i32::<NativeEndian>(1).unwrap();
    let mut err_hdr = NlMsgHeader::request();
    err_hdr.data_length(4).pid(9).seq(1).dump();
    let _ = bytes.write(&err_hdr.bytes()).unwrap();

    let (msg, n) = Msg::from_bytes(&bytes).unwrap();
    assert_eq!(n, bytes.len());
    assert_eq!(hdr, msg.header());

    if let &Payload::Error(_, h) = msg.payload() {
        assert_eq!(h, err_hdr);
    } else {
        panic!("msg is not Err enum");
    }
}

#[test]
fn align_values() {
    assert_eq!(nlmsg_align(0), 0);
    assert_eq!(nlmsg_align(1), 4);
    assert_eq!(nlmsg_align(4), 4);
    assert_eq!(nlmsg_align(6), 8);
    assert_eq!(nlmsg_align(17), 20);
    assert_eq!(nlmsg_header_length(), 16);
    assert_eq!(nlmsg_length(6), 22);
    for n in 0..64usize {
        let a = nlmsg_align(n);
        assert_eq!(a % 4, 0);
        assert!(a >= n && a < n + 4);
    }
}

#[test]
fn header_round_trip() {
    let mut hdr = NlMsgHeader::request();
    hdr.data_length(300).multipart().dump().seq(0x0102_0304).pid(0x0a0b_0c0d);
    let bytes = hdr.bytes();
    assert_eq!(bytes.len(), 16);
    assert_eq!(NlMsgHeader::from_bytes(&bytes), Ok((hdr, 16)));
    assert_eq!(hdr.msg_length(), 316);
    assert_eq!(hdr.flags, 0x303);

    let done = NlMsgHeader::done();
    assert_eq!(NlMsgHeader::from_bytes(&done.bytes()), Ok((done, 16)));
    assert_eq!(done.msg_type(), MsgType::Done);
    assert_eq!(NlMsgHeader::error().msg_type(), MsgType::Error);
    assert_eq!(NlMsgHeader::request().msg_type(), MsgType::Request);
}

#[test]
fn header_encoding_is_native_endian() {
    let mut hdr = NlMsgHeader::request();
    hdr.data_length(4).pid(9).seq(1).dump();
    let mut expected = vec![];
    expected.write_u32::<NativeEndian>(20).unwrap();
    expected.write_u16::<NativeEndian>(0).unwrap();
    expected.write_u16::<NativeEndian>(0x301).unwrap();
    expected.write_u32::<NativeEndian>(1).unwrap();
    expected.write_u32::<NativeEndian>(9).unwrap();
    assert_eq!(hdr.bytes(), expected);
}

#[test]
fn header_too_short_is_malformed() {
    let bytes = [0u8; 15];
    assert_eq!(NlMsgHeader::from_bytes(&bytes), Err(NetlinkError::MalformedHeader));
    assert_eq!(Msg::from_bytes(&bytes), Err(NetlinkError::MalformedHeader));
}

#[test]
fn data_longer_than_bytes_is_truncated() {
    let bytes = [1u8, 2];
    assert_eq!(Payload::data(&bytes, 3), Err(NetlinkError::TruncatedPayload));
    assert_eq!(Payload::nlmsg_error(&bytes), Err(NetlinkError::TruncatedPayload));
    assert_eq!(Payload::nlmsg_error(&[0u8; 10]), Err(NetlinkError::MalformedHeader));
}

#[test]
fn request_message_round_trip() {
    let bytes = [0u8, 1, 2, 3, 4, 5];
    let mut shdr = NlMsgHeader::request();
    shdr.data_length(6).seq(1).pid(102);
    let msg = Msg::new(shdr, Payload::Data(&bytes));
    let encoded = msg.bytes().unwrap();
    assert_eq!(encoded.len(), 22);

    let (decoded, n) = Msg::from_bytes(&encoded).unwrap();
    assert_eq!(n, 16 + bytes.len());
    assert_eq!(decoded.header(), shdr);
    assert_eq!(decoded.header().seq, 1);
    assert_eq!(decoded.header().pid, 102);
    assert_eq!(decoded.header().msg_type(), MsgType::Request);
    assert_eq!(decoded.payload(), &Payload::Data(&[0, 1, 2, 3, 4, 5]));
}

#[test]
fn encoding_sets_header_length() {
    let bytes = [7u8; 10];
    let msg = Msg::new(NlMsgHeader::request(), Payload::Data(&bytes));
    let encoded = msg.bytes().unwrap();
    let (decoded, n) = Msg::from_bytes(&encoded).unwrap();
    assert_eq!(n, 26);
    assert_eq!(decoded.header().msg_length(), 26);
    assert_eq!(decoded.payload(), &Payload::Data(&bytes));
}

#[test]
fn error_payload_round_trip() {
    let mut h = NlMsgHeader::request();
    h.data_length(4).pid(9).seq(1).dump();

    let err = Payload::Error(1, h).bytes();
    assert_eq!(err.len(), 20);
    assert_eq!(Payload::nlmsg_error(&err), Ok((Payload::Error(1, h), 20)));

    let zero = Payload::Error(0, h).bytes();
    assert_eq!(Payload::nlmsg_error(&zero), Ok((Payload::Ack(h), 20)));

    let ack = Payload::Ack(h).bytes();
    assert_eq!(ack, zero);
    assert_eq!(&ack[..4], &[0u8, 0, 0, 0]);
    assert_eq!(&ack[4..], &h.bytes()[..]);
    let mut code = vec![];
    code.write_i32::<NativeEndian>(1).unwrap();
    assert_eq!(&err[..4], &code[..]);
    assert_eq!(&err[4..], &h.bytes()[..]);
    assert_eq!(Payload::nlmsg_error(&ack), Ok((Payload::Ack(h), 20)));

    assert_eq!(Payload::Empty.bytes(), Vec::<u8>::new());
    assert_eq!(Payload::Data(&[3, 4]).bytes(), vec![3u8, 4]);
}

#[test]
fn error_message_round_trip() {
    let mut h = NlMsgHeader::request();
    h.data_length(4).pid(9).seq(1).dump();
    let mut eh = NlMsgHeader::error();
    eh.pid(9).seq(1);
    let msg = Msg::new(eh, Payload::Error(-17, h));
    let encoded = msg.bytes().unwrap();
    assert_eq!(encoded.len(), 36);
    let (decoded, n) = Msg::from_bytes(&encoded).unwrap();
    assert_eq!(n, 36);
    assert_eq!(decoded.header(), eh);
    assert_eq!(decoded.payload(), &Payload::Error(-17, h));
}

#[test]
fn declared_length_past_buffer_is_rejected() {
    let mut hdr = NlMsgHeader::request();
    hdr.data_length(10);
    let mut bytes = hdr.bytes();
    bytes.extend_from_slice(&[1, 2, 3]);
    assert_eq!(Msg::from_bytes(&bytes), Err(NetlinkError::InvalidMessageLength));
    assert!(decode_messages(&bytes).is_empty());
}

#[test]
fn declared_length_below_header_is_rejected() {
    let mut bytes = vec![];
    bytes.write_u32::<NativeEndian>(8).unwrap();
    bytes.extend_from_slice(&[0u8; 12]);
    assert_eq!(Msg::from_bytes(&bytes), Err(NetlinkError::InvalidMessageLength));
}

#[test]
fn multipart_batch_walks_to_two_messages() {
    let bytes = [0u8, 1, 2, 3, 4, 5];
    let mut shdr = NlMsgHeader::request();
    shdr.data_length(6).multipart().seq(1).pid(100);
    let msg = Msg::new(shdr, Payload::Data(&bytes));
    let msg2 = msg.clone();

    let mut donehdr = NlMsgHeader::done();
    donehdr.pid(100);
    let donemsg = Msg::new(donehdr, Payload::Empty);

    let mut buf = encode_messages(&vec![msg, msg2, donemsg]).unwrap();
    assert_eq!(buf.len(), 22 + 22 + 16);
    // bytes after the done message are not looked at
    buf.extend_from_slice(&shdr.bytes());

    let msgs = decode_messages(&buf);
    assert_eq!(msgs.len(), 2);
    for m in &msgs {
        assert_eq!(m.header(), shdr);
        assert_eq!(m.payload(), &Payload::Data(&bytes));
    }
}

#[test]
fn walk_stops_at_bytes_that_do_not_decode() {
    let a = [9u8, 8, 7];
    let mut h = NlMsgHeader::request();
    h.data_length(3).seq(5);
    let mut buf = Msg::new(h, Payload::Data(&a)).bytes().unwrap();
    buf.extend_from_slice(&[1, 2, 3, 4, 5]);
    let msgs = decode_messages(&buf);
    assert_eq!(msgs.len(), 1);
    assert_eq!(msgs[0].payload(), &Payload::Data(&a));
    assert!(decode_messages(&[]).is_empty());
}

#[test]
fn address_conversion() {
    let a = NetlinkAddr::new(101, 3);
    assert_eq!(a.pid(), 101);
    assert_eq!(a.groups(), 3);
    let raw = a.as_raw();
    assert_eq!(raw.family, AF_NETLINK);
    assert_eq!(NetlinkAddr::from_raw(&raw), Ok(a));
    let other = RawNetlinkAddr { family: 2, pid: 101, groups: 3 };
    assert_eq!(NetlinkAddr::from_raw(&other), Err(NetlinkError::UnsupportedAddressFamily));
}

#[test]
fn received_datagram_is_decoded() {
    let mut buf = recv_buffer();
    assert_eq!(buf.len(), RECV_BUFFER_SIZE);
    assert!(buf.iter().all(|b| *b == 0));

    let data = [4u8, 5, 6, 7];
    let mut h = NlMsgHeader::request();
    h.data_length(4).seq(2).pid(101);
    let encoded = Msg::new(h, Payload::Data(&data)).bytes().unwrap();
    buf[..encoded.len()].copy_from_slice(&encoded);

    let sender = NetlinkAddr::new(101, 0).as_raw();
    let (addr, msgs) = decode_received(&sender, &buf, encoded.len()).unwrap();
    assert_eq!(addr, NetlinkAddr::new(101, 0));
    assert_eq!(msgs.len(), 1);
    assert_eq!(msgs[0].payload(), &Payload::Data(&data));

    let bad = RawNetlinkAddr { family: 1, pid: 0, groups: 0 };
    assert_eq!(
        decode_received(&bad, &buf, encoded.len()).err(),
        Some(NetlinkError::UnsupportedAddressFamily)
    );
}

#[test]
fn batch_is_each_encoding_in_order() {
    let a = [1u8, 2, 3];
    let b = [4u8; 9];
    let mut ha = NlMsgHeader::request();
    ha.data_length(3).seq(1);
    let mut hb = NlMsgHeader::request();
    hb.data_length(9).seq(2).multipart();
    let ma = Msg::new(ha, Payload::Data(&a));
    let mb = Msg::new(hb, Payload::Data(&b));
    let done = Msg::new(NlMsgHeader::done(), Payload::Empty);
    let mut expected = ma.bytes().unwrap();
    expected.extend(mb.bytes().unwrap());
    expected.extend(done.bytes().unwrap());
    assert_eq!(encode_messages(&vec![ma, mb, done]).unwrap(), expected);
    assert_eq!(encode_messages(&vec![]).unwrap(), Vec::<u8>::new());
}
