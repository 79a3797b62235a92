//! Listening slots.

use vstd::prelude::*;

use crate::flow_table::ConnHandle;

verus! {

/// Names a listening slot; 0 names none.
pub type ListenHandle = u32;

/// A listening address, the one handshake in progress on it, and at most one
/// connection that waits to be accepted.
#[derive(Debug, Clone, Copy, PartialEq, Eq, Structural)]
pub struct ListenSlot {
    pub local_ip: u32,
    pub local_port: u16,
    pub accept_queue: Option<ConnHandle>,
    pub in_progress: Option<ConnHandle>,
}

} // verus!
