//! Packet buffers, named by number.
//!
//! The driver owns the buffers and their reference counts. The library names a
//! buffer by the number under which the driver knows it; zero names none.
use vstd::prelude::*;

use crate::counters::{inc, TcpCounters};

verus! {

/// Largest reference count that a dropped handle may leave behind before the
/// drop is counted as unexpected.
pub const MBUF_DROP_UNEXPECTED_THRESHOLD: u16 = 8;

/// Payload capacity of a receive buffer created with the default shape.
pub const DEFAULT_DATA_ROOM: u16 = 2048;

/// Cache size of a receive pool.
pub const RX_POOL_CACHE: u32 = 256;

/// The number of a buffer. A copy of it carries no reference of its own.
#[derive(Debug, Clone, Copy, PartialEq, Eq, Structural)]
pub struct Mbuf {
    pub id: u64,
}

impl Mbuf {
    /// Names the buffer that the driver knows under `id`.
    pub fn from_id(id: u64) -> (r: Self)
        ensures
            r.id == id,
    {
        Mbuf { id }
    }

    /// Names no buffer.
    pub fn null() -> (r: Self)
        ensures
            r.is_none(),
    {
        Mbuf { id: 0 }
    }

    /// Names no buffer.
    pub open spec fn is_none(self) -> bool {
        self.id == 0
    }

    /// Whether it names no buffer.
    pub fn is_null(&self) -> (r: bool)
        ensures
            r == self.is_none(),
    {
        self.id == 0
    }
}

/// The shape of a packet-buffer pool.
#[derive(Debug, Clone, Copy, PartialEq, Eq, Structural)]
pub struct PoolShape {
    pub n_elements: u32,
    pub cache_size: u32,
    pub priv_size: u16,
    pub data_room_size: u16,
}

/// Shape of a pool for received frames of the default size, where the driver
/// reserves `headroom` bytes in front of the data. `None` if the two do not
/// fit a buffer's 16-bit length.
pub fn rx_pool_shape(elt_count: u32, headroom: u16) -> (r: Option<PoolShape>)
    ensures
        r is Some <==> DEFAULT_DATA_ROOM + headroom <= u16::MAX,
        r is Some ==> r->0 == (PoolShape {
            n_elements: elt_count,
            cache_size: RX_POOL_CACHE,
            priv_size: 0,
            data_room_size: (DEFAULT_DATA_ROOM + headroom) as u16,
        }),
{
    if headroom > u16::MAX - DEFAULT_DATA_ROOM {
        return None;
    }
    Some(
        PoolShape {
            n_elements: elt_count,
            cache_size: RX_POOL_CACHE,
            priv_size: 0,
            data_room_size: DEFAULT_DATA_ROOM + headroom,
        },
    )
}

/// The count that was read before a handle was dropped shows an imbalance: the
/// buffer was free already, or more references remain than any path holds.
pub open spec fn drop_is_unexpected(refcnt_before: u16) -> bool {
    refcnt_before == 0 || refcnt_before > MBUF_DROP_UNEXPECTED_THRESHOLD + 1
}

/// Accounts for a dropped buffer handle, given the reference count that was
/// read before the drop.
pub fn note_handle_drop(refcnt_before: u16, counters: &mut TcpCounters)
    ensures
        *final(counters) == (if drop_is_unexpected(refcnt_before) {
            TcpCounters {
                mbuf_refcnt_drop_unexpected: old(
                    counters,
                ).mbuf_refcnt_drop_unexpected.wrapping_add(1),
                ..*old(counters)
            }
        } else {
            *old(counters)
        }),
{
    let after: u16 = refcnt_before.saturating_sub(1);
    if refcnt_before == 0 || after > MBUF_DROP_UNEXPECTED_THRESHOLD {
        inc(&mut counters.mbuf_refcnt_drop_unexpected);
    }
}

} // verus!
