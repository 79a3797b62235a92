//! Round-trip-time estimator and retransmission timeout.
use vstd::prelude::*;

verus! {

/// Default first timeout, in microseconds.
pub const DEFAULT_INITIAL_RTO_US: u32 = 5_000;

/// `v` brought into `[lo, hi]`, where `hi` wins if the bounds cross.
pub open spec fn clamped(v: int, lo: int, hi: int) -> int {
    let raised = if v < lo {
        lo
    } else {
        v
    };
    if raised > hi {
        hi
    } else {
        raised
    }
}

/// Smoothed round-trip time, its variance and the timeout that follows from
/// them, all in microseconds.
#[derive(Debug, Clone, Copy)]
pub struct RttEstimator {
    pub srtt: Option<u32>,
    pub rttvar: u32,
    pub rto: u32,
    pub min_rto: u32,
    pub max_rto: u32,
}

/// The absolute difference of two durations.
pub open spec fn gap(a: u32, b: u32) -> int {
    if a < b {
        b - a
    } else {
        a - b
    }
}

impl RttEstimator {
    pub open spec fn timeout_for(self, srtt: int, rttvar: int) -> u32 {
        clamped(srtt + 4 * rttvar, self.min_rto as int, self.max_rto as int) as u32
    }

    /// The estimator after one more sample: the first sample sets the
    /// estimate, later ones move it by an eighth and the variance by a quarter.
    pub open spec fn sampled(self, rtt: u32) -> RttEstimator {
        match self.srtt {
            None => RttEstimator {
                srtt: Some(rtt),
                rttvar: rtt / 2,
                rto: self.timeout_for(rtt as int, (rtt / 2) as int),
                ..self
            },
            Some(s) => {
                let v = ((3 * self.rttvar + gap(s, rtt)) / 4) as u32;
                let n = ((7 * s + rtt) / 8) as u32;
                RttEstimator {
                    srtt: Some(n),
                    rttvar: v,
                    rto: self.timeout_for(n as int, v as int),
                    ..self
                }
            },
        }
    }

    /// The estimator after the timeout has doubled, up to the cap.
    pub open spec fn backed_off(self) -> RttEstimator {
        RttEstimator {
            rto: if 2 * self.rto > self.max_rto {
                self.max_rto
            } else {
                (2 * self.rto) as u32
            },
            ..self
        }
    }

    /// An estimator without a sample, whose timeout is `initial_rto_us`.
    pub fn new(min_rto_us: u32, initial_rto_us: u32, max_rto_us: u32) -> (r: Self)
        ensures
            r == (RttEstimator {
                srtt: None,
                rttvar: 0,
                rto: initial_rto_us,
                min_rto: min_rto_us,
                max_rto: max_rto_us,
            }),
    {
        RttEstimator {
            srtt: None,
            rttvar: 0,
            rto: initial_rto_us,
            min_rto: min_rto_us,
            max_rto: max_rto_us,
        }
    }

    fn set_timeout(&mut self, srtt: u32, rttvar: u32)
        ensures
            *final(self) == (RttEstimator {
                srtt: Some(srtt),
                rttvar,
                rto: old(self).timeout_for(srtt as int, rttvar as int),
                ..*old(self)
            }),
    {
        let raw: u64 = srtt as u64 + 4 * rttvar as u64;
        let lo: u64 = self.min_rto as u64;
        let hi: u64 = self.max_rto as u64;
        let raised: u64 = if raw < lo {
            lo
        } else {
            raw
        };
        let v: u64 = if raised > hi {
            hi
        } else {
            raised
        };
        self.srtt = Some(srtt);
        self.rttvar = rttvar;
        self.rto = v as u32;
    }

    /// Absorbs one round-trip sample.
    pub fn sample(&mut self, rtt_us: u32)
        ensures
            *final(self) == old(self).sampled(rtt_us),
    {
        match self.srtt {
            None => {
                self.set_timeout(rtt_us, rtt_us / 2);
            },
            Some(s) => {
                let d: u32 = if s < rtt_us {
                    rtt_us - s
                } else {
                    s - rtt_us
                };
                let v: u64 = (3 * self.rttvar as u64 + d as u64) / 4;
                let n: u64 = (7 * s as u64 + rtt_us as u64) / 8;
                self.set_timeout(n as u32, v as u32);
            },
        }
    }

    /// The smoothed round-trip time, once there is a sample.
    pub fn srtt_us(&self) -> (r: Option<u32>)
        ensures
            r == self.srtt,
    {
        self.srtt
    }

    /// The round-trip variance.
    pub fn rttvar_us(&self) -> (r: u32)
        ensures
            r == self.rttvar,
    {
        self.rttvar
    }

    /// The current timeout.
    pub fn rto_us(&self) -> (r: u32)
        ensures
            r == self.rto,
    {
        self.rto
    }

    /// Doubles the timeout, up to the cap.
    pub fn apply_backoff(&mut self)
        ensures
            *final(self) == old(self).backed_off(),
    {
        let d: u64 = 2 * self.rto as u64;
        if d > self.max_rto as u64 {
            self.rto = self.max_rto;
        } else {
            self.rto = d as u32;
        }
    }
}

} // verus!
