//! Tail-loss-probe settings.
use vstd::prelude::*;

verus! {

/// Default probe timeout, as a multiple of the round-trip time in hundredths.
pub const DEFAULT_MULTIPLIER_X100: u16 = 200;

/// Default number of probes without an intervening sample.
pub const DEFAULT_MAX_CONSECUTIVE_PROBES: u8 = 1;

/// Per-connection settings of the probe timeout.
#[derive(Debug, Clone, Copy)]
pub struct TlpConfig {
    pub floor_us: u32,
    pub multiplier_x100: u16,
    pub skip_flight_size_gate: bool,
}

/// What a probe sends.
#[derive(Debug, Clone, Copy, PartialEq, Eq, Structural)]
pub enum Probe {
    NewData,
    LastSegmentRetransmit,
}

/// Chooses the probe. There is none when nothing is in flight.
pub fn select_probe(pending_nonempty: bool, snd_retrans_nonempty: bool) -> (r: Option<Probe>)
    ensures
        r == (if !snd_retrans_nonempty {
            None
        } else if pending_nonempty {
            Some(Probe::NewData)
        } else {
            Some(Probe::LastSegmentRetransmit)
        }),
{
    if !snd_retrans_nonempty {
        None
    } else if pending_nonempty {
        Some(Probe::NewData)
    } else {
        Some(Probe::LastSegmentRetransmit)
    }
}

} // verus!
