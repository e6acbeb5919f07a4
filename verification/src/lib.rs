//! Codec for MQTT 3.1.1 and 5.0 control packets, with a streaming assembler.
//!
//! Every decoder is specified against a mathematical parser over `Seq<u8>`,
//! every encoder against the byte sequence it appends.

pub mod common;
pub mod v3;
pub mod v5;

pub use common::error::{Error, ErrorView};
pub use common::poll::{Polled, DEFAULT_MAX_PACKET_SIZE, MAX_PACKET_SIZE};
pub use common::topic::{TopicFilter, TopicName};
pub use common::types::{ClientId, Pid, Protocol, QoS, QosPid, Username, VarByteInt, VarBytes};
pub use common::utils::{
    decode_raw_header, decode_var_int, header_len, read_bytes, read_string, read_u16, read_u32,
    read_u8, remaining_len, total_len, var_int_len, write_bytes, write_string, write_u16,
    write_u32, write_u8, write_var_int,
};
