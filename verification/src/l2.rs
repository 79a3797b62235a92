//! Ethernet frames.
use vstd::prelude::*;

use crate::bytes::{be16, be16_of, is_zero_mac, mac_eq, mac_is_zero};

verus! {

pub const ETHERTYPE_IPV4: u16 = 0x0800;

pub const ETHERTYPE_ARP: u16 = 0x0806;

pub const ETH_HDR_LEN: usize = 14;

pub const BROADCAST_MAC: [u8; 6] = [0xff, 0xff, 0xff, 0xff, 0xff, 0xff];

/// A decoded Ethernet header.
#[derive(Debug, Clone, Copy, PartialEq, Eq)]
pub struct L2Decoded {
    pub ethertype: u16,
    pub src_mac: [u8; 6],
    pub dst_mac: [u8; 6],
    pub payload_offset: usize,
}

/// Why a frame is dropped.
#[derive(Debug, Clone, Copy, PartialEq, Eq, Structural)]
pub enum L2Drop {
    /// Shorter than a header.
    Short,
    /// Addressed neither to us nor to everyone.
    MissMac,
    /// Neither IPv4 nor ARP.
    UnknownEthertype,
}

/// The six bytes of a frame from `at` on are the address `mac`.
pub open spec fn mac_at(frame: Seq<u8>, at: int, mac: [u8; 6]) -> bool {
    mac@ == frame.subrange(at, at + 6)
}

/// The frame is for us: sent to everyone, to our address, or our address is
/// not set.
pub open spec fn is_for(frame: Seq<u8>, our_mac: [u8; 6]) -> bool {
    ||| mac_at(frame, 0, BROADCAST_MAC)
    ||| mac_at(frame, 0, our_mac)
    ||| is_zero_mac(our_mac)
}

/// The frame type field.
pub open spec fn ethertype_of(frame: Seq<u8>) -> u16 {
    be16_of(frame[12], frame[13])
}

fn read_mac(frame: &[u8], at: usize) -> (r: [u8; 6])
    requires
        at + 6 <= frame@.len(),
    ensures
        mac_at(frame@, at as int, r),
{
    let r: [u8; 6] = [
        frame[at],
        frame[at + 1],
        frame[at + 2],
        frame[at + 3],
        frame[at + 4],
        frame[at + 5],
    ];
    assert(r@ =~= frame@.subrange(at as int, at + 6));
    r
}

/// Decodes the header of a frame. With an all-zero `our_mac` every destination
/// is accepted.
pub fn l2_decode(frame: &[u8], our_mac: [u8; 6]) -> (r: Result<L2Decoded, L2Drop>)
    ensures
        r == Err::<L2Decoded, L2Drop>(L2Drop::Short) <==> frame@.len() < ETH_HDR_LEN,
        r == Err::<L2Decoded, L2Drop>(L2Drop::MissMac) <==> frame@.len() >= ETH_HDR_LEN && !is_for(
            frame@,
            our_mac,
        ),
        r == Err::<L2Decoded, L2Drop>(L2Drop::UnknownEthertype) <==> {
            &&& frame@.len() >= ETH_HDR_LEN
            &&& is_for(frame@, our_mac)
            &&& ethertype_of(frame@) != ETHERTYPE_IPV4
            &&& ethertype_of(frame@) != ETHERTYPE_ARP
        },
        r matches Ok(d) ==> {
            &&& d.ethertype == ethertype_of(frame@)
            &&& mac_at(frame@, 0, d.dst_mac)
            &&& mac_at(frame@, 6, d.src_mac)
            &&& d.payload_offset == ETH_HDR_LEN
        },
{
    if frame.len() < ETH_HDR_LEN {
        return Err(L2Drop::Short);
    }
    let dst: [u8; 6] = read_mac(frame, 0);
    let src: [u8; 6] = read_mac(frame, 6);
    let ethertype: u16 = be16(frame[12], frame[13]);
    let everyone: [u8; 6] = BROADCAST_MAC;
    let is_broadcast: bool = mac_eq(&dst, &everyone);
    let is_us: bool = mac_eq(&dst, &our_mac);
    let is_any: bool = mac_is_zero(&our_mac);
    proof {
        if mac_at(frame@, 0, everyone) {
            assert forall|i: int| 0 <= i < 6 implies dst[i] == everyone[i] by {
                assert(dst@[i] == everyone@[i]);
            }
            assert(dst =~= everyone);
        }
        if mac_at(frame@, 0, our_mac) {
            assert forall|i: int| 0 <= i < 6 implies dst[i] == our_mac[i] by {
                assert(dst@[i] == our_mac@[i]);
            }
            assert(dst =~= our_mac);
        }
    }
    if !(is_broadcast || is_us || is_any) {
        return Err(L2Drop::MissMac);
    }
    if ethertype != ETHERTYPE_IPV4 && ethertype != ETHERTYPE_ARP {
        return Err(L2Drop::UnknownEthertype);
    }
    Ok(L2Decoded { ethertype, src_mac: src, dst_mac: dst, payload_offset: ETH_HDR_LEN })
}

} // verus!
