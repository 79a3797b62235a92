//! Loss-detector state of a connection.
use vstd::prelude::*;

verus! {

/// What the loss detector keeps per connection.
#[derive(Debug, Clone, Copy)]
pub struct RackState {
    /// Transmit time of the most recently delivered segment.
    pub xmit_ts_ns: u64,
    /// End of that segment.
    pub end_seq: u32,
    /// Smallest round-trip time seen, 0 before the first sample.
    pub min_rtt_us: u32,
    /// Reordering window.
    pub reo_wnd_us: u32,
    /// A duplicate SACK has been seen.
    pub dsack_seen: bool,
}

impl RackState {
    /// The state before any delivery.
    pub fn new() -> (r: Self)
        ensures
            r == (RackState {
                xmit_ts_ns: 0,
                end_seq: 0,
                min_rtt_us: 0,
                reo_wnd_us: 0,
                dsack_seen: false,
            }),
    {
        RackState { xmit_ts_ns: 0, end_seq: 0, min_rtt_us: 0, reo_wnd_us: 0, dsack_seen: false }
    }

    /// The smallest round-trip time after one more sample.
    pub open spec fn min_rtt_after(self, rtt_us: u32) -> u32 {
        if self.min_rtt_us == 0 || rtt_us < self.min_rtt_us {
            rtt_us
        } else {
            self.min_rtt_us
        }
    }

    /// Takes one round-trip sample into the minimum.
    pub fn update_min_rtt(&mut self, rtt_us: u32)
        ensures
            *final(self) == (RackState {
                min_rtt_us: old(self).min_rtt_after(rtt_us),
                ..*old(self)
            }),
    {
        if self.min_rtt_us == 0 || rtt_us < self.min_rtt_us {
            self.min_rtt_us = rtt_us;
        }
    }
}

} // verus!
