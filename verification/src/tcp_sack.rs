//! Ranges that the peer has acknowledged selectively.
use vstd::prelude::*;

use crate::tcp_options::SackBlock;

verus! {

/// Most ranges that are kept.
pub const MAX_SACK_SCOREBOARD_ENTRIES: usize = 4;

/// The selectively acknowledged ranges of a connection.
#[derive(Debug, Clone, Copy)]
pub struct SackScoreboard {
    pub blocks: [SackBlock; 4],
    pub count: u8,
}

impl SackScoreboard {
    /// A scoreboard without a range.
    pub fn new() -> (r: Self)
        ensures
            r.count == 0,
    {
        SackScoreboard { blocks: [SackBlock { left: 0, right: 0 }; 4], count: 0 }
    }

    /// Number of ranges.
    pub fn len(&self) -> (r: usize)
        ensures
            r == self.count,
    {
        self.count as usize
    }

    /// Whether there is no range.
    pub fn is_empty(&self) -> (r: bool)
        ensures
            r == (self.count == 0),
    {
        self.count == 0
    }
}

} // verus!
