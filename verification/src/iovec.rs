//! Scatter-gather view of delivered payload.
use vstd::prelude::*;

use crate::mempool::Mbuf;

verus! {

/// One contiguous piece of delivered payload: `len` bytes of the buffer `base`,
/// from `offset` on.
#[derive(Debug, Clone, Copy, PartialEq, Eq, Structural)]
pub struct DpdkNetIovec {
    pub base: Mbuf,
    pub offset: u16,
    pub len: u32,
}

} // verus!
