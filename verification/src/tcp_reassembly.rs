//! Out-of-order segments waiting for the gap before them.
use vstd::prelude::*;

use crate::mempool::Mbuf;

verus! {

/// A segment received out of order: `len` bytes of a buffer.
#[derive(Debug, Clone, Copy, PartialEq, Eq, Structural)]
pub struct OooSegment {
    pub seq: u32,
    pub len: u16,
    pub mbuf: Mbuf,
    pub offset: u16,
}

impl OooSegment {
    /// The sequence number behind the segment.
    pub open spec fn end(self) -> u32 {
        self.seq.wrapping_add(self.len as u32)
    }

    /// The sequence number behind the segment.
    pub fn end_seq(&self) -> (r: u32)
        ensures
            r == self.end(),
    {
        self.seq.wrapping_add(self.len as u32)
    }
}

/// Bytes held by a run of segments.
pub open spec fn ooo_bytes(s: Seq<OooSegment>) -> nat
    decreases s.len(),
{
    if s.len() == 0 {
        0
    } else {
        ooo_bytes(s.drop_last()) + s.last().len as nat
    }
}

/// The out-of-order segments of a connection, in sequence order.
#[derive(Debug)]
pub struct ReorderQueue {
    pub segs: Vec<OooSegment>,
    pub cap: u32,
}

/// The ranges that a run of segments covers.
pub open spec fn ranges_of(s: Seq<OooSegment>) -> Seq<(u32, u32)> {
    Seq::new(s.len(), |i: int| (s[i].seq, s[i].end()))
}

/// The buffers of a run of segments.
pub open spec fn ooo_mbufs(s: Seq<OooSegment>) -> Seq<Mbuf> {
    Seq::new(s.len(), |i: int| s[i].mbuf)
}

/// A longer run holds no fewer bytes.
pub proof fn lemma_ooo_bytes_prefix(s: Seq<OooSegment>, n: int)
    requires
        0 <= n <= s.len(),
    ensures
        ooo_bytes(s.take(n)) <= ooo_bytes(s),
    decreases s.len() - n,
{
    if n < s.len() {
        lemma_ooo_bytes_prefix(s, n + 1);
        assert(s.take(n + 1).drop_last() =~= s.take(n));
    } else {
        assert(s.take(n) =~= s);
    }
}

impl ReorderQueue {
    /// The segments fit in the cap.
    pub open spec fn wf(&self) -> bool {
        ooo_bytes(self.segs@) <= self.cap
    }

    /// Whether the segments fit in the cap.
    pub fn is_valid(&self) -> (r: bool)
        ensures
            r == self.wf(),
    {
        let mut t: u32 = 0;
        let mut i: usize = 0;
        assert(self.segs@.take(0) =~= Seq::<OooSegment>::empty());
        while i < self.segs.len()
            invariant
                i <= self.segs@.len(),
                t == ooo_bytes(self.segs@.take(i as int)),
                t <= self.cap,
            decreases self.segs@.len() - i,
        {
            proof {
                lemma_ooo_bytes_prefix(self.segs@, i + 1);
                assert(self.segs@.take(i + 1).drop_last() =~= self.segs@.take(i as int));
            }
            if self.segs[i].len as u32 > self.cap - t {
                return false;
            }
            t = t + self.segs[i].len as u32;
            i += 1;
        }
        assert(self.segs@.take(i as int) =~= self.segs@);
        true
    }

    /// No segment.
    pub fn new(cap: u32) -> (r: Self)
        ensures
            r.wf(),
            r.segs@ == Seq::<OooSegment>::empty(),
            r.cap == cap,
    {
        ReorderQueue { segs: Vec::new(), cap }
    }

    /// Whether there is no segment.
    pub fn is_empty(&self) -> (r: bool)
        ensures
            r == (self.segs@.len() == 0),
    {
        self.segs.len() == 0
    }

    /// Bytes held.
    pub fn total_bytes(&self) -> (r: u32)
        requires
            self.wf(),
        ensures
            r == ooo_bytes(self.segs@),
    {
        let mut t: u32 = 0;
        let mut i: usize = 0;
        assert(self.segs@.take(0) =~= Seq::<OooSegment>::empty());
        while i < self.segs.len()
            invariant
                self.wf(),
                i <= self.segs@.len(),
                t == ooo_bytes(self.segs@.take(i as int)),
            decreases self.segs@.len() - i,
        {
            proof {
                lemma_ooo_bytes_prefix(self.segs@, i + 1);
                assert(self.segs@.take(i + 1).drop_last() =~= self.segs@.take(i as int));
            }
            t = t + self.segs[i].len as u32;
            i += 1;
        }
        assert(self.segs@.take(i as int) =~= self.segs@);
        t
    }

    /// The ranges held, in sequence order.
    pub fn ranges(&self) -> (r: Vec<(u32, u32)>)
        ensures
            r@ == ranges_of(self.segs@),
    {
        let mut out: Vec<(u32, u32)> = Vec::new();
        let mut i: usize = 0;
        while i < self.segs.len()
            invariant
                i <= self.segs@.len(),
                out@ == ranges_of(self.segs@.take(i as int)),
            decreases self.segs@.len() - i,
        {
            out.push((self.segs[i].seq, self.segs[i].end_seq()));
            i += 1;
            assert(out@ =~= ranges_of(self.segs@.take(i as int)));
        }
        assert(self.segs@.take(i as int) =~= self.segs@);
        out
    }

    /// The buffers held, in sequence order.
    pub fn mbufs(&self) -> (r: Vec<Mbuf>)
        ensures
            r@ == ooo_mbufs(self.segs@),
    {
        let mut out: Vec<Mbuf> = Vec::new();
        let mut i: usize = 0;
        while i < self.segs.len()
            invariant
                i <= self.segs@.len(),
                out@ == ooo_mbufs(self.segs@.take(i as int)),
            decreases self.segs@.len() - i,
        {
            out.push(self.segs[i].mbuf);
            i += 1;
            assert(out@ =~= ooo_mbufs(self.segs@.take(i as int)));
        }
        assert(self.segs@.take(i as int) =~= self.segs@);
        out
    }

    /// Drops every segment.
    pub fn clear(&mut self)
        ensures
            final(self).wf(),
            final(self).segs@ == Seq::<OooSegment>::empty(),
            final(self).cap == old(self).cap,
    {
        self.segs.clear();
    }
}

} // verus!
