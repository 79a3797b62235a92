//! Segments to be sent.
use vstd::prelude::*;

use crate::tcp_options::TcpOpts;

verus! {

pub const TCP_FIN: u8 = 0x01;

pub const TCP_SYN: u8 = 0x02;

pub const TCP_RST: u8 = 0x04;

pub const TCP_PSH: u8 = 0x08;

pub const TCP_ACK: u8 = 0x10;

/// Bytes of the headers of a frame without TCP options.
pub const FRAME_HDRS_MIN: usize = 54;

/// A segment to be sent, with the addresses of its frame.
#[derive(Debug)]
pub struct SegmentTx {
    pub src_mac: [u8; 6],
    pub dst_mac: [u8; 6],
    pub src_ip: u32,
    pub dst_ip: u32,
    pub src_port: u16,
    pub dst_port: u16,
    pub seq: u32,
    pub ack: u32,
    pub flags: u8,
    pub window: u16,
    pub options: TcpOpts,
    pub payload: Vec<u8>,
}

/// The flags contain `bit`.
pub open spec fn has_flag(flags: u8, bit: u8) -> bool {
    flags & bit != 0
}

/// Options without any set.
pub open spec fn no_options(o: TcpOpts) -> bool {
    &&& o.wf()
    &&& o.mss is None
    &&& o.wscale is None
    &&& !o.sack_permitted
    &&& o.timestamps is None
    &&& o.sack_block_count == 0
}

} // verus!
