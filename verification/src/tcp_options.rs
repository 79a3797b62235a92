//! TCP options of a segment.
use vstd::prelude::*;

verus! {

/// Most SACK blocks that an outbound ACK carries: three fit beside timestamps.
pub const MAX_SACK_BLOCKS_EMIT: usize = 3;

/// A received range, `left` included and `right` not.
#[derive(Debug, Clone, Copy, PartialEq, Eq, Structural)]
pub struct SackBlock {
    pub left: u32,
    pub right: u32,
}

/// The options of one segment. `sack_blocks` counts from the front, up to
/// `sack_block_count`; the slots behind it hold zeros.
#[derive(Debug, Clone, Copy)]
pub struct TcpOpts {
    pub mss: Option<u16>,
    pub wscale: Option<u8>,
    pub sack_permitted: bool,
    /// Timestamp value and echo reply.
    pub timestamps: Option<(u32, u32)>,
    pub sack_blocks: [SackBlock; 3],
    pub sack_block_count: u8,
}

impl TcpOpts {
    /// The count stays within the slots.
    pub open spec fn wf(self) -> bool {
        self.sack_block_count <= MAX_SACK_BLOCKS_EMIT
    }

    /// The SACK blocks in the order in which they are sent.
    pub open spec fn sacks(self) -> Seq<SackBlock> {
        self.sack_blocks@.take(self.sack_block_count as int)
    }

    /// Appends a SACK block; a block beyond the last slot is dropped, and the
    /// result says so.
    pub fn push_sack_block(&mut self, b: SackBlock) -> (r: bool)
        requires
            old(self).wf(),
        ensures
            final(self).wf(),
            r == (old(self).sack_block_count < MAX_SACK_BLOCKS_EMIT),
            r ==> final(self).sacks() == old(self).sacks().push(b),
            r ==> final(self).sack_block_count == old(self).sack_block_count + 1,
            !r ==> *final(self) == *old(self),
            *final(self) == (TcpOpts {
                sack_blocks: final(self).sack_blocks,
                sack_block_count: final(self).sack_block_count,
                ..*old(self)
            }),
    {
        let n: u8 = self.sack_block_count;
        if n >= 3 {
            return false;
        }
        let i: usize = n as usize;
        self.sack_blocks[i] = b;
        self.sack_block_count = n + 1;
        assert(self.sacks() =~= old(self).sacks().push(b));
        true
    }
}

impl Default for TcpOpts {
    fn default() -> (r: Self)
        ensures
            r.wf(),
            r.mss is None,
            r.wscale is None,
            !r.sack_permitted,
            r.timestamps is None,
            r.sack_block_count == 0,
            r.sacks() == Seq::<SackBlock>::empty(),
            r.sack_blocks@ == Seq::new(3, |i: int| SackBlock { left: 0, right: 0 }),
    {
        let r = TcpOpts {
            mss: None,
            wscale: None,
            sack_permitted: false,
            timestamps: None,
            sack_blocks: [SackBlock { left: 0, right: 0 }; 3],
            sack_block_count: 0,
        };
        assert(r.sacks() =~= Seq::<SackBlock>::empty());
        assert(r.sack_blocks@ =~= Seq::new(3, |i: int| SackBlock { left: 0, right: 0 }));
        r
    }
}

} // verus!
