//! The states of a TCP connection.
use vstd::prelude::*;

verus! {

/// Connection states, in the order of their numbers.
#[derive(Debug, Clone, Copy, PartialEq, Eq, Structural)]
pub enum TcpState {
    Closed,
    Listen,
    SynSent,
    SynReceived,
    Established,
    FinWait1,
    FinWait2,
    CloseWait,
    Closing,
    LastAck,
    TimeWait,
}

/// Number of states.
pub const TCP_STATE_COUNT: usize = 11;

impl TcpState {
    /// The state's number, from 0 to 10.
    pub open spec fn number(self) -> int {
        match self {
            TcpState::Closed => 0,
            TcpState::Listen => 1,
            TcpState::SynSent => 2,
            TcpState::SynReceived => 3,
            TcpState::Established => 4,
            TcpState::FinWait1 => 5,
            TcpState::FinWait2 => 6,
            TcpState::CloseWait => 7,
            TcpState::Closing => 8,
            TcpState::LastAck => 9,
            TcpState::TimeWait => 10,
        }
    }

    /// The state's number, as an index.
    pub fn index(self) -> (r: usize)
        ensures
            r == self.number(),
            r < 11,
    {
        match self {
            TcpState::Closed => 0,
            TcpState::Listen => 1,
            TcpState::SynSent => 2,
            TcpState::SynReceived => 3,
            TcpState::Established => 4,
            TcpState::FinWait1 => 5,
            TcpState::FinWait2 => 6,
            TcpState::CloseWait => 7,
            TcpState::Closing => 8,
            TcpState::LastAck => 9,
            TcpState::TimeWait => 10,
        }
    }
}

/// The state whose number is `b` modulo the number of states.
pub fn state_from_byte(b: u8) -> (r: TcpState)
    ensures
        r.number() == b % 11,
{
    let k: u8 = b % 11;
    if k == 0 {
        TcpState::Closed
    } else if k == 1 {
        TcpState::Listen
    } else if k == 2 {
        TcpState::SynSent
    } else if k == 3 {
        TcpState::SynReceived
    } else if k == 4 {
        TcpState::Established
    } else if k == 5 {
        TcpState::FinWait1
    } else if k == 6 {
        TcpState::FinWait2
    } else if k == 7 {
        TcpState::CloseWait
    } else if k == 8 {
        TcpState::Closing
    } else if k == 9 {
        TcpState::LastAck
    } else {
        TcpState::TimeWait
    }
}

/// States with the same number are the same state.
pub proof fn law_number_identifies_state(a: TcpState, b: TcpState)
    ensures
        a.number() == b.number() <==> a == b,
{
}

} // verus!
