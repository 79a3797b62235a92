//! Pending timers.
use vstd::prelude::*;

verus! {

/// Granularity of timers, in nanoseconds.
pub const TICK_NS: u64 = 10_000;

/// Identifies a timer: the slot that holds it and the slot's generation.
#[derive(Debug, Clone, Copy, PartialEq, Eq, Structural)]
pub struct TimerId {
    pub slot: u32,
    pub generation: u32,
}

/// What a timer is for.
#[derive(Debug, Clone, Copy, PartialEq, Eq, Structural)]
pub enum TimerKind {
    Rto,
    Tlp,
    SynRetrans,
    ApiPublic,
}

/// A pending timer.
#[derive(Debug, Clone, Copy, PartialEq, Eq, Structural)]
pub struct TimerNode {
    pub fire_at_ns: u64,
    /// The connection it belongs to; 0 for a public timer.
    pub owner_handle: u32,
    pub kind: TimerKind,
    pub user_data: u64,
}

/// A slot and its present generation.
#[derive(Debug, Clone, Copy)]
pub struct TimerSlot {
    pub generation: u32,
    pub node: Option<TimerNode>,
}

/// The pending timers of an engine. A slot is reused under a new generation,
/// so that the identifier of a timer that is gone finds nothing.
#[derive(Debug)]
pub struct TimerWheel {
    pub slots: Vec<TimerSlot>,
    pub free: Vec<u32>,
}

impl View for TimerWheel {
    type V = Map<TimerId, TimerNode>;

    open spec fn view(&self) -> Map<TimerId, TimerNode> {
        Map::new(
            |id: TimerId| self.is_live(id),
            |id: TimerId| self.slots@[id.slot as int].node->0,
        )
    }
}

impl TimerWheel {
    /// `id` names a pending timer.
    pub open spec fn is_live(&self, id: TimerId) -> bool {
        &&& id.slot < self.slots@.len()
        &&& self.slots@[id.slot as int].generation == id.generation
        &&& self.slots@[id.slot as int].node is Some
    }

    /// Every slot has a number, and the free list holds empty slots, each once.
    pub open spec fn wf(&self) -> bool {
        &&& self.slots@.len() <= u32::MAX
        &&& forall|i: int|
            0 <= i < self.free@.len() ==> #[trigger] self.free@[i] < self.slots@.len()
                && self.slots@[self.free@[i] as int].node is None
        &&& forall|i: int, j: int|
            0 <= i < j < self.free@.len() ==> self.free@[i] != self.free@[j]
    }

    /// There is a slot for one more timer.
    pub open spec fn has_slot(&self) -> bool {
        self.free@.len() > 0 || self.slots@.len() < u32::MAX
    }

    /// Nothing happened but that timers left: the slot of each is empty under
    /// its next generation, every other slot is as it was.
    pub open spec fn only_left(&self, after: &Self) -> bool {
        &&& after.slots@.len() == self.slots@.len()
        &&& forall|k: int|
            0 <= k < self.slots@.len() ==> #[trigger] after.slots@[k] == self.slots@[k]
                || slot_vacated(self.slots@[k], after.slots@[k])
    }

    /// Nothing happened but that a timer was added: it has the first use of a
    /// new slot, or the present generation of an empty one.
    pub open spec fn added(&self, after: &Self, id: TimerId, node: TimerNode) -> bool {
        let n = self.slots@.len();
        &&& id.slot <= n
        &&& if id.slot < n {
            &&& after.slots@.len() == n
            &&& self.slots@[id.slot as int].node is None
            &&& id.generation == self.slots@[id.slot as int].generation
        } else {
            &&& after.slots@.len() == n + 1
            &&& id.generation == 0
        }
        &&& after.slots@[id.slot as int] == (TimerSlot {
            generation: id.generation,
            node: Some(node),
        })
        &&& forall|k: int|
            0 <= k < n && k != id.slot ==> #[trigger] after.slots@[k] == self.slots@[k]
    }

    /// No pending timer; room for `hint` of them is set aside.
    pub fn new(hint: usize) -> (r: Self)
        ensures
            r.wf(),
            r.has_slot(),
            r@ == Map::<TimerId, TimerNode>::empty(),
    {
        let r = TimerWheel { slots: Vec::with_capacity(hint), free: Vec::new() };
        assert(r@ =~= Map::<TimerId, TimerNode>::empty());
        r
    }

    /// Whether there is a slot for one more timer.
    pub fn has_room(&self) -> (r: bool)
        ensures
            r == self.has_slot(),
    {
        self.free.len() > 0 || self.slots.len() < u32::MAX as usize
    }

    /// Schedules a timer under an identifier that no pending timer has.
    pub fn add(&mut self, node: TimerNode) -> (r: TimerId)
        requires
            old(self).wf(),
            old(self).has_slot(),
        ensures
            final(self).wf(),
            !old(self)@.contains_key(r),
            final(self)@ == old(self)@.insert(r, node),
            old(self).added(final(self), r, node),
    {
        match self.free.pop() {
            Some(s) => {
                let i: usize = s as usize;
                let g: u32 = self.slots[i].generation;
                self.slots.set(i, TimerSlot { generation: g, node: Some(node) });
                let id = TimerId { slot: s, generation: g };
                assert(self@ =~= old(self)@.insert(id, node));
                id
            },
            None => {
                let s: u32 = self.slots.len() as u32;
                self.slots.push(TimerSlot { generation: 0, node: Some(node) });
                let id = TimerId { slot: s, generation: 0 };
                assert(self@ =~= old(self)@.insert(id, node));
                id
            },
        }
    }

    fn release(&mut self, i: usize)
        requires
            old(self).wf(),
            i < old(self).slots@.len(),
            old(self).slots@[i as int].node is Some,
        ensures
            final(self).wf(),
            final(self).slots@.len() == old(self).slots@.len(),
            forall|k: int|
                0 <= k < final(self).slots@.len() && k != i ==> #[trigger] final(self).slots@[k]
                    == old(self).slots@[k],
            final(self).slots@[i as int] == (TimerSlot {
                generation: old(self).slots@[i as int].generation.wrapping_add(1),
                node: None,
            }),
            final(self)@ == old(self)@.remove(
                TimerId { slot: i as u32, generation: old(self).slots@[i as int].generation },
            ),
            final(self).has_slot(),
    {
        let ghost id = TimerId { slot: i as u32, generation: self.slots@[i as int].generation };
        let g: u32 = self.slots[i].generation;
        self.slots.set(i, TimerSlot { generation: g.wrapping_add(1), node: None });
        self.free.push(i as u32);
        assert(self@ =~= old(self)@.remove(id));
    }

    /// Cancels a timer. Says whether it was pending.
    pub fn cancel(&mut self, id: TimerId) -> (r: bool)
        requires
            old(self).wf(),
        ensures
            final(self).wf(),
            r == old(self)@.contains_key(id),
            final(self)@ == old(self)@.remove(id),
            old(self).only_left(final(self)),
            old(self).has_slot() ==> final(self).has_slot(),
    {
        let i: usize = id.slot as usize;
        if i < self.slots.len() && self.slots[i].generation == id.generation
            && self.slots[i].node.is_some() {
            self.release(i);
            true
        } else {
            assert(self@ =~= old(self)@.remove(id));
            false
        }
    }

    /// Takes out every timer that is due at `now_ns`.
    pub fn advance(&mut self, now_ns: u64) -> (r: Vec<(TimerId, TimerNode)>)
        requires
            old(self).wf(),
        ensures
            final(self).wf(),
            still_pending(old(self)@, now_ns, final(self)@),
            fired_of(old(self)@, now_ns, r@),
            old(self).only_left(final(self)),
    {
        let mut fired: Vec<(TimerId, TimerNode)> = Vec::new();
        let mut i: usize = 0;
        let ghost all = self@;
        let n: usize = self.slots.len();
        while i < n
            invariant
                i <= n,
                n == self.slots@.len(),
                self.wf(),
                all == old(self)@,
                old(self).only_left(self),
                forall|k: int|
                    i <= k < n ==> #[trigger] self.slots@[k] == old(self).slots@[k],
                forall|id: TimerId|
                    #![trigger self.is_live(id)]
                    #![trigger self@.contains_key(id)]
                    self@.contains_key(id) <==> all.contains_key(id) && !(all[id].fire_at_ns
                        <= now_ns && id.slot < i),
                forall|id: TimerId| self@.contains_key(id) ==> #[trigger] self@[id] == all[id],
                forall|k: int|
                    0 <= k < fired@.len() ==> {
                        &&& all.contains_key((#[trigger] fired@[k]).0)
                        &&& all[fired@[k].0] == fired@[k].1
                        &&& fired@[k].1.fire_at_ns <= now_ns
                        &&& fired@[k].0.slot < i
                    },
                forall|k: int, l: int|
                    0 <= k < l < fired@.len() ==> (#[trigger] fired@[k]).0.slot < (
                    #[trigger] fired@[l]).0.slot,
                forall|id: TimerId| #[trigger]
                    all.contains_key(id) && all[id].fire_at_ns <= now_ns && id.slot < i
                        ==> exists|k: int| 0 <= k < fired@.len() && (#[trigger] fired@[k]).0 == id,
            decreases n - i,
        {
            let s: TimerSlot = self.slots[i];
            let id = TimerId { slot: i as u32, generation: s.generation };
            proof {
                assert(self@.contains_key(id) <==> self.is_live(id));
                assert forall|j: TimerId| j.slot == i && all.contains_key(j) implies j == id by {
                    assert(self@.contains_key(j));
                    assert(self.is_live(j));
                }
            }
            let ghost before = fired@;
            match s.node {
                Some(node) => {
                    assert(self@[id] == node);
                    if node.fire_at_ns <= now_ns {
                        self.release(i);
                        fired.push((id, node));
                        assert(fired@[fired@.len() - 1].0 == id);
                        assert(forall|k: int| 0 <= k < before.len() ==> fired@[k] == before[k]);
                    }
                },
                None => {},
            }
            i += 1;
        }
        fired
    }
}

/// The timer of a slot has left it.
pub open spec fn slot_vacated(before: TimerSlot, after: TimerSlot) -> bool {
    &&& before.node is Some
    &&& after == (TimerSlot { generation: before.generation.wrapping_add(1), node: None })
}

/// What an operation does to the slots: none goes away, and a generation
/// changes exactly when the timer of its slot leaves, to the next one.
pub open spec fn generations_kept(a: TimerWheel, b: TimerWheel) -> bool {
    &&& a.slots@.len() <= b.slots@.len()
    &&& forall|k: int|
        0 <= k < a.slots@.len() ==> (#[trigger] b.slots@[k]).generation == a.slots@[k].generation
            || (a.slots@[k].node is Some && b.slots@[k].generation
            == a.slots@[k].generation.wrapping_add(1))
    &&& forall|id: TimerId| #[trigger]
        a.is_live(id) && !b.is_live(id) ==> b.slots@[id.slot as int].generation
            == id.generation.wrapping_add(1)
}

/// Timers that leave and timers that are added change no generation but that
/// of a slot whose timer left.
pub proof fn law_operations_keep_generations(a: TimerWheel, b: TimerWheel)
    ensures
        a.only_left(&b) ==> generations_kept(a, b),
        forall|id: TimerId, node: TimerNode| #[trigger]
            a.added(&b, id, node) ==> generations_kept(a, b),
{
    if a.only_left(&b) {
        assert forall|id: TimerId| #[trigger] a.is_live(id) && !b.is_live(id) implies b.slots@[
            id.slot as int].generation == id.generation.wrapping_add(1) by {
            assert(b.slots@[id.slot as int] == a.slots@[id.slot as int] || slot_vacated(
                a.slots@[id.slot as int],
                b.slots@[id.slot as int],
            ));
        }
    }
    assert forall|id: TimerId, node: TimerNode| #[trigger]
        a.added(&b, id, node) implies generations_kept(a, b) by {
        assert forall|k: int| 0 <= k < a.slots@.len() implies (
        #[trigger] b.slots@[k]).generation == a.slots@[k].generation by {}
        assert forall|x: TimerId| #[trigger] a.is_live(x) implies b.is_live(x) by {
            assert(b.slots@[x.slot as int] == a.slots@[x.slot as int]);
        }
    }
}

/// A history of the wheel, one operation from each state to the next.
pub open spec fn is_history(ws: Seq<TimerWheel>) -> bool {
    forall|i: int| 0 <= i < ws.len() - 1 ==> #[trigger] generations_kept(ws[i], ws[i + 1])
}

/// How often a timer left a slot in the course of a history.
pub open spec fn departures(ws: Seq<TimerWheel>, slot: int) -> nat
    decreases ws.len(),
{
    if ws.len() < 2 {
        0
    } else {
        let n = ws.len() as int;
        departures(ws.drop_last(), slot) + if ws[n - 1].slots@[slot].generation
            == ws[n - 2].slots@[slot].generation {
            0nat
        } else {
            1nat
        }
    }
}

proof fn lemma_departures(ws: Seq<TimerWheel>, slot: int)
    requires
        ws.len() > 0,
        is_history(ws),
        0 <= slot < ws[0].slots@.len(),
    ensures
        slot < ws.last().slots@.len(),
        ws.last().slots@[slot].generation == (ws[0].slots@[slot].generation + departures(ws, slot))
            % 0x1_0000_0000,
    decreases ws.len(),
{
    let n = ws.len() as int;
    if n >= 2 {
        let s = ws.drop_last();
        assert forall|i: int| 0 <= i < s.len() - 1 implies #[trigger] generations_kept(
            s[i],
            s[i + 1],
        ) by {
            assert(generations_kept(ws[i], ws[i + 1]));
        }
        lemma_departures(s, slot);
        assert(s.last() == ws[n - 2]);
        assert(generations_kept(ws[n - 2], ws[n - 2 + 1]));
    }
}

/// The identifier of a timer that has left finds nothing, whatever was done
/// since, until timers have left its slot so often that the 32-bit generation
/// has come round.
pub proof fn law_stale_id_finds_nothing(ws: Seq<TimerWheel>, id: TimerId)
    requires
        ws.len() >= 2,
        is_history(ws),
        ws[0].is_live(id),
        !ws[1].is_live(id),
        departures(ws, id.slot as int) < 0x1_0000_0000,
    ensures
        !ws.last()@.contains_key(id),
{
    let slot = id.slot as int;
    lemma_departures(ws, slot);
    let first: int = 0;
    assert(generations_kept(ws[first], ws[first + 1]));
    lemma_departed_first(ws, slot);
    let d = departures(ws, slot) as int;
    assert(1 <= d < 0x1_0000_0000);
    assert((id.generation + d) % 0x1_0000_0000 != id.generation as int);
}

proof fn lemma_departed_first(ws: Seq<TimerWheel>, slot: int)
    requires
        ws.len() >= 2,
        ws[1].slots@[slot].generation != ws[0].slots@[slot].generation,
    ensures
        departures(ws, slot) >= 1,
    decreases ws.len(),
{
    if ws.len() > 2 {
        lemma_departed_first(ws.drop_last(), slot);
    }
}

/// What is pending once the timers due at `now_ns` are gone.
pub open spec fn still_pending(
    before: Map<TimerId, TimerNode>,
    now_ns: u64,
    after: Map<TimerId, TimerNode>,
) -> bool {
    &&& forall|id: TimerId| #[trigger]
        after.contains_key(id) <==> before.contains_key(id) && before[id].fire_at_ns > now_ns
    &&& forall|id: TimerId| #[trigger] after.contains_key(id) ==> after[id] == before[id]
}

/// `fired` lists the timers due at `now_ns`, each once.
pub open spec fn fired_of(
    before: Map<TimerId, TimerNode>,
    now_ns: u64,
    fired: Seq<(TimerId, TimerNode)>,
) -> bool {
    &&& forall|k: int|
        0 <= k < fired.len() ==> {
            &&& before.contains_key((#[trigger] fired[k]).0)
            &&& before[fired[k].0] == fired[k].1
            &&& fired[k].1.fire_at_ns <= now_ns
        }
    &&& forall|k: int, l: int|
        0 <= k < l < fired.len() ==> (#[trigger] fired[k]).0 != (#[trigger] fired[l]).0
    &&& forall|id: TimerId| #[trigger]
        before.contains_key(id) && before[id].fire_at_ns <= now_ns ==> exists|k: int|
            0 <= k < fired.len() && (#[trigger] fired[k]).0 == id
}

/// A cancelled timer never fires.
pub proof fn law_cancelled_never_fires(
    w: Map<TimerId, TimerNode>,
    id: TimerId,
    now_ns: u64,
    fired: Seq<(TimerId, TimerNode)>,
)
    requires
        fired_of(w.remove(id), now_ns, fired),
    ensures
        forall|k: int| 0 <= k < fired.len() ==> (#[trigger] fired[k]).0 != id,
{
}

} // verus!
