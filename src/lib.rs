//! Framing and decoding of netlink messages: the fixed header, the payload
//! variants, whole messages, buffers of concatenated messages, endpoint
//! addresses, and what a socket session computes around its transport calls.

pub mod address;
pub mod align;
pub mod endian;
pub mod error;
pub mod header;
pub mod msg;
pub mod payload;
pub mod session;

pub use address::{NetlinkAddr, RawNetlinkAddr, AF_NETLINK};
pub use align::{nlmsg_align, nlmsg_header_length, nlmsg_length};
pub use error::NetlinkError;
pub use header::{MsgType, NlMsgHeader};
pub use msg::{decode_messages, encode_messages, Msg};
pub use payload::Payload;
pub use session::{decode_received, recv_buffer, RECV_BUFFER_SIZE};
