//! Segments in flight.
use vstd::prelude::*;

use crate::mempool::Mbuf;
use crate::tcp_seq::{precedes_or_is, seq_le};

verus! {

/// A transmitted segment that is not acknowledged yet.
#[derive(Debug, Clone, Copy, PartialEq, Eq, Structural)]
pub struct RetransEntry {
    pub seq: u32,
    pub len: u16,
    /// The buffer that holds the frame.
    pub mbuf: Mbuf,
    pub first_tx_ts_ns: u64,
    /// Times it has been transmitted.
    pub xmit_count: u16,
    pub sacked: bool,
    pub lost: bool,
    pub xmit_ts_ns: u64,
    /// Header bytes in front of the payload when the frame was built.
    pub hdrs_len: u16,
}

impl RetransEntry {
    /// The sequence number behind the segment.
    pub open spec fn end(self) -> u32 {
        self.seq.wrapping_add(self.len as u32)
    }

    /// The sequence number behind the segment.
    pub fn end_seq(&self) -> (r: u32)
        ensures
            r == self.end(),
    {
        self.seq.wrapping_add(self.len as u32)
    }
}

/// The segments in flight, oldest first.
#[derive(Debug)]
pub struct SendRetrans {
    pub entries: Vec<RetransEntry>,
}

/// How many of the oldest segments lie wholly below `snd_una`.
pub open spec fn acked_prefix(s: Seq<RetransEntry>, snd_una: u32) -> int
    decreases s.len(),
{
    if s.len() > 0 && precedes_or_is(s[0].end(), snd_una) {
        1 + acked_prefix(s.subrange(1, s.len() as int), snd_una)
    } else {
        0
    }
}

/// The prefix is part of the queue.
pub proof fn lemma_acked_prefix_bound(s: Seq<RetransEntry>, snd_una: u32)
    ensures
        0 <= acked_prefix(s, snd_una) <= s.len(),
    decreases s.len(),
{
    if s.len() > 0 && precedes_or_is(s[0].end(), snd_una) {
        lemma_acked_prefix_bound(s.subrange(1, s.len() as int), snd_una);
    }
}

/// The buffers of a run of segments.
pub open spec fn mbufs_of(s: Seq<RetransEntry>) -> Seq<Mbuf> {
    Seq::new(s.len(), |i: int| s[i].mbuf)
}

impl View for SendRetrans {
    type V = Seq<RetransEntry>;

    open spec fn view(&self) -> Seq<RetransEntry> {
        self.entries@
    }
}

impl SendRetrans {
    /// Nothing in flight; room for `cap` segments is set aside.
    pub fn with_capacity(cap: usize) -> (r: Self)
        ensures
            r@ == Seq::<RetransEntry>::empty(),
    {
        SendRetrans { entries: Vec::with_capacity(cap) }
    }

    /// Whether nothing is in flight.
    pub fn is_empty(&self) -> (r: bool)
        ensures
            r == (self@.len() == 0),
    {
        self.entries.len() == 0
    }

    /// Number of segments in flight.
    pub fn len(&self) -> (r: usize)
        ensures
            r == self@.len(),
    {
        self.entries.len()
    }

    /// Number of segments in flight.
    pub fn flight_size(&self) -> (r: usize)
        ensures
            r == self@.len(),
    {
        self.entries.len()
    }

    /// The segment at an index.
    pub fn get(&self, i: usize) -> (r: Option<RetransEntry>)
        ensures
            r == (if i < self@.len() {
                Some(self@[i as int])
            } else {
                None
            }),
    {
        if i < self.entries.len() {
            Some(self.entries[i])
        } else {
            None
        }
    }

    /// The oldest segment.
    pub fn front(&self) -> (r: Option<RetransEntry>)
        ensures
            r == (if self@.len() > 0 {
                Some(self@[0])
            } else {
                None
            }),
    {
        self.get(0)
    }

    /// Replaces the segment at an index; out of range nothing happens.
    pub fn set(&mut self, i: usize, e: RetransEntry)
        ensures
            final(self)@ == (if i < old(self)@.len() {
                old(self)@.update(i as int, e)
            } else {
                old(self)@
            }),
    {
        if i < self.entries.len() {
            self.entries.set(i, e);
        }
    }

    /// Appends a segment that was just handed to the driver.
    pub fn push_after_tx(&mut self, e: RetransEntry)
        ensures
            final(self)@ == old(self)@.push(e),
    {
        self.entries.push(e);
    }

    /// Drops the oldest segments that lie wholly below `snd_una` and returns
    /// their buffers, oldest first.
    pub fn prune_below(&mut self, snd_una: u32) -> (r: Vec<Mbuf>)
        ensures
            final(self)@ == old(self)@.subrange(
                acked_prefix(old(self)@, snd_una),
                old(self)@.len() as int,
            ),
            r@ == mbufs_of(old(self)@.take(acked_prefix(old(self)@, snd_una))),
    {
        let mut out: Vec<Mbuf> = Vec::new();
        let ghost all = self.entries@;
        let mut n: usize = 0;
        proof {
            assert(all.subrange(0, all.len() as int) =~= all);
            lemma_acked_prefix_bound(all, snd_una);
        }
        while n < self.entries.len() && seq_le(self.entries[n].end_seq(), snd_una)
            invariant
                n <= self.entries@.len(),
                self.entries@ == all,
                acked_prefix(all, snd_una) == n + acked_prefix(
                    all.subrange(n as int, all.len() as int),
                    snd_una,
                ),
                out@ == mbufs_of(all.take(n as int)),
            decreases self.entries@.len() - n,
        {
            let e: RetransEntry = self.entries[n];
            let ghost rest = all.subrange(n as int, all.len() as int);
            assert(rest[0] == all[n as int]);
            assert(rest.subrange(1, rest.len() as int) =~= all.subrange(n + 1, all.len() as int));
            out.push(e.mbuf);
            n += 1;
            assert(out@ =~= mbufs_of(all.take(n as int)));
        }
        proof {
            let rest = all.subrange(n as int, all.len() as int);
            if rest.len() > 0 {
                assert(rest[0] == all[n as int]);
            }
        }
        let kept = self.entries.split_off(n);
        self.entries = kept;
        out
    }

    /// The buffers of the segments in flight, oldest first.
    pub fn mbufs(&self) -> (r: Vec<Mbuf>)
        ensures
            r@ == mbufs_of(self@),
    {
        let mut out: Vec<Mbuf> = Vec::new();
        let mut n: usize = 0;
        while n < self.entries.len()
            invariant
                n <= self.entries@.len(),
                out@ == mbufs_of(self.entries@.take(n as int)),
            decreases self.entries@.len() - n,
        {
            out.push(self.entries[n].mbuf);
            n += 1;
            assert(out@ =~= mbufs_of(self.entries@.take(n as int)));
        }
        assert(self.entries@.take(n as int) =~= self.entries@);
        out
    }

    /// Marks the segments at the given indexes as lost; an index out of range
    /// is passed over.
    pub fn mark_lost(&mut self, idxs: &[u16])
        ensures
            final(self)@ == marked_lost(old(self)@, idxs@),
    {
        let mut k: usize = 0;
        let ghost all = self.entries@;
        assert(idxs@.take(0) =~= Seq::<u16>::empty());
        while k < idxs.len()
            invariant
                k <= idxs@.len(),
                self.entries@ == marked_lost(all, idxs@.take(k as int)),
            decreases idxs@.len() - k,
        {
            let i: usize = idxs[k] as usize;
            let ghost before = idxs@.take(k as int);
            proof {
                assert(idxs@.take(k + 1).drop_last() =~= before);
                assert(idxs@.take(k + 1).last() == idxs@[k as int]);
            }
            if i < self.entries.len() {
                let mut e: RetransEntry = self.entries[i];
                e.lost = true;
                self.entries.set(i, e);
            }
            k += 1;
        }
        assert(idxs@.take(k as int) =~= idxs@);
    }
}

/// The segments once those at `idxs` are marked as lost.
pub open spec fn marked_lost(s: Seq<RetransEntry>, idxs: Seq<u16>) -> Seq<RetransEntry>
    decreases idxs.len(),
{
    if idxs.len() == 0 {
        s
    } else {
        let t = marked_lost(s, idxs.drop_last());
        let i = idxs.last() as int;
        if i < t.len() {
            t.update(i, RetransEntry { lost: true, ..t[i] })
        } else {
            t
        }
    }
}

/// Marking changes nothing but the mark: a segment is marked afterwards exactly
/// if it was before or its index was given.
pub proof fn law_marked_lost(s: Seq<RetransEntry>, idxs: Seq<u16>, i: int)
    requires
        0 <= i < s.len(),
    ensures
        marked_lost(s, idxs).len() == s.len(),
        marked_lost(s, idxs)[i] == (RetransEntry {
            lost: s[i].lost || (exists|k: int| 0 <= k < idxs.len() && #[trigger] idxs[k] == i),
            ..s[i]
        }),
    decreases idxs.len(),
{
    if idxs.len() > 0 {
        law_marked_lost(s, idxs.drop_last(), i);
        let m = idxs.drop_last();
        if exists|k: int| 0 <= k < m.len() && #[trigger] m[k] == i {
            let k = choose|k: int| 0 <= k < m.len() && #[trigger] m[k] == i;
            assert(idxs[k] == i);
        }
        if idxs.last() == i {
            assert(idxs[idxs.len() - 1] == i);
        }
        if exists|k: int| 0 <= k < idxs.len() && #[trigger] idxs[k] == i {
            let k = choose|k: int| 0 <= k < idxs.len() && #[trigger] idxs[k] == i;
            if k < idxs.len() - 1 {
                assert(m[k] == i);
            }
        }
    }
}

/// Nothing of an unacknowledged segment is dropped: every segment dropped at
/// `snd_una` ends at or below it, and the first one kept does not.
pub proof fn law_prune_only_acked(s: Seq<RetransEntry>, snd_una: u32)
    ensures
        forall|i: int|
            0 <= i < acked_prefix(s, snd_una) ==> precedes_or_is(
                (#[trigger] s[i]).end(),
                snd_una,
            ),
        acked_prefix(s, snd_una) < s.len() ==> !precedes_or_is(
            s[acked_prefix(s, snd_una)].end(),
            snd_una,
        ),
    decreases s.len(),
{
    if s.len() > 0 && precedes_or_is(s[0].end(), snd_una) {
        let t = s.subrange(1, s.len() as int);
        law_prune_only_acked(t, snd_una);
        lemma_acked_prefix_bound(t, snd_una);
        assert forall|i: int| 0 <= i < acked_prefix(s, snd_una) implies precedes_or_is(
            (#[trigger] s[i]).end(),
            snd_una,
        ) by {
            if i > 0 {
                assert(t[i - 1] == s[i]);
            }
        }
    }
}

} // verus!
