//! Connections that the peer opens.
use vstd::prelude::*;

use crate::counters::{inc, Counters, TcpCounters};
use crate::engine::{conn_replaced, Engine, LATEST_NS};
use crate::engine_tx::{is_reset, RST_ACK};
use crate::error::Error;
use crate::flow_table::{ConnHandle, FourTuple};
use crate::mempool::Mbuf;
use crate::num::{max_int, max_u32};
use crate::tcp_conn::TcpConn;
use crate::tcp_output::SegmentTx;
use crate::tcp_state::TcpState;
use crate::tcp_timer_wheel::{TimerId, TimerKind, TimerNode};
use crate::test_server::{ListenHandle, ListenSlot};

verus! {

/// The index of the first slot under a handle; the number of slots if there is
/// none.
pub open spec fn slot_of(slots: Seq<(ListenHandle, ListenSlot)>, l: ListenHandle) -> int
    decreases slots.len(),
{
    if slots.len() == 0 {
        0
    } else if slots[0].0 == l {
        0
    } else {
        1 + slot_of(slots.subrange(1, slots.len() as int), l)
    }
}

/// The index of the first slot whose handshake in progress is a connection's;
/// the number of slots if there is none.
pub open spec fn slot_opening(slots: Seq<(ListenHandle, ListenSlot)>, h: ConnHandle) -> int
    decreases slots.len(),
{
    if slots.len() == 0 {
        0
    } else if slots[0].1.in_progress == Some(h) {
        0
    } else {
        1 + slot_opening(slots.subrange(1, slots.len() as int), h)
    }
}

/// The slots with one of them replaced.
pub open spec fn with_slot(
    slots: Seq<(ListenHandle, ListenSlot)>,
    i: int,
    s: ListenSlot,
) -> Seq<(ListenHandle, ListenSlot)> {
    if 0 <= i < slots.len() {
        slots.update(i, (slots[i].0, s))
    } else {
        slots
    }
}

/// The slots once the handshake of a connection is complete: it waits to be
/// accepted.
pub open spec fn promoted(slots: Seq<(ListenHandle, ListenSlot)>, h: ConnHandle) -> Seq<
    (ListenHandle, ListenSlot),
> {
    let i = slot_opening(slots, h);
    with_slot(
        slots,
        i,
        ListenSlot { in_progress: None, accept_queue: Some(h), ..slots[i].1 },
    )
}

/// The slots once the handshake of a connection has failed.
pub open spec fn cleared(slots: Seq<(ListenHandle, ListenSlot)>, h: ConnHandle) -> Seq<
    (ListenHandle, ListenSlot),
> {
    let i = slot_opening(slots, h);
    with_slot(slots, i, ListenSlot { in_progress: None, ..slots[i].1 })
}

/// The slot serves a connection already.
pub open spec fn is_busy(s: ListenSlot) -> bool {
    s.accept_queue is Some || s.in_progress is Some
}

/// No slot serves two connections.
pub open spec fn slots_exclusive(slots: Seq<(ListenHandle, ListenSlot)>) -> bool {
    forall|i: int|
        0 <= i < slots.len() ==> !((#[trigger] slots[i]).1.accept_queue is Some
            && slots[i].1.in_progress is Some)
}

/// No two slots listen at the same address.
pub open spec fn addresses_distinct(slots: Seq<(ListenHandle, ListenSlot)>) -> bool {
    forall|i: int, j: int|
        0 <= i < j < slots.len() ==> !((#[trigger] slots[i]).1.local_ip == (
        #[trigger] slots[j]).1.local_ip && slots[i].1.local_port == slots[j].1.local_port)
}

proof fn lemma_slot_of(slots: Seq<(ListenHandle, ListenSlot)>, l: ListenHandle, n: int)
    requires
        0 <= n <= slots.len(),
        forall|k: int| 0 <= k < n ==> (#[trigger] slots[k]).0 != l,
    ensures
        n <= slot_of(slots, l) <= slots.len(),
        n < slots.len() && slots[n].0 == l ==> slot_of(slots, l) == n,
    decreases slots.len(),
{
    if slots.len() > 0 && slots[0].0 != l {
        let t = slots.subrange(1, slots.len() as int);
        let m = if n == 0 {
            0
        } else {
            n - 1
        };
        assert forall|k: int| 0 <= k < m implies (#[trigger] t[k]).0 != l by {
            assert(t[k] == slots[k + 1]);
        }
        lemma_slot_of(t, l, m);
        if n > 0 && n < slots.len() {
            assert(t[m] == slots[n]);
        }
    }
}

proof fn lemma_slot_opening(slots: Seq<(ListenHandle, ListenSlot)>, h: ConnHandle, n: int)
    requires
        0 <= n <= slots.len(),
        forall|k: int| 0 <= k < n ==> (#[trigger] slots[k]).1.in_progress != Some(h),
    ensures
        n <= slot_opening(slots, h) <= slots.len(),
        n < slots.len() && slots[n].1.in_progress == Some(h) ==> slot_opening(slots, h) == n,
    decreases slots.len(),
{
    if slots.len() > 0 && slots[0].1.in_progress != Some(h) {
        let t = slots.subrange(1, slots.len() as int);
        let m = if n == 0 {
            0
        } else {
            n - 1
        };
        assert forall|k: int| 0 <= k < m implies (#[trigger] t[k]).1.in_progress != Some(h) by {
            assert(t[k] == slots[k + 1]);
        }
        lemma_slot_opening(t, h, m);
        if n > 0 && n < slots.len() {
            assert(t[m] == slots[n]);
        }
    }
}

/// A slot serves one connection at a time, whatever becomes of its handshake.
pub proof fn law_slots_stay_exclusive(slots: Seq<(ListenHandle, ListenSlot)>, h: ConnHandle)
    requires
        slots_exclusive(slots),
    ensures
        slots_exclusive(promoted(slots, h)),
        slots_exclusive(cleared(slots, h)),
{
    lemma_slot_opening(slots, h, 0);
}

/// Once the handshake of a connection has failed, the slot that it was on is
/// free for another; none of the others has changed.
pub proof fn law_failed_handshake_frees_slot(
    slots: Seq<(ListenHandle, ListenSlot)>,
    h: ConnHandle,
    i: int,
)
    requires
        slots_exclusive(slots),
        0 <= i < slots.len(),
    ensures
        i == slot_opening(slots, h) ==> !is_busy(cleared(slots, h)[i].1),
        i != slot_opening(slots, h) ==> cleared(slots, h)[i] == slots[i],
{
    lemma_slot_opening(slots, h, 0);
    if i == slot_opening(slots, h) {
        lemma_opening_found(slots, h);
    }
}

proof fn lemma_opening_found(slots: Seq<(ListenHandle, ListenSlot)>, h: ConnHandle)
    ensures
        slot_opening(slots, h) < slots.len() ==> slots[slot_opening(slots, h)].1.in_progress
            == Some(h),
    decreases slots.len(),
{
    if slots.len() > 0 && slots[0].1.in_progress != Some(h) {
        let t = slots.subrange(1, slots.len() as int);
        lemma_opening_found(t, h);
        lemma_slot_opening(t, h, 0);
        if slot_opening(t, h) < t.len() {
            assert(t[slot_opening(t, h)] == slots[slot_opening(slots, h)]);
        }
    }
}

/// What is to become of a SYN on a listening slot.
#[derive(Debug)]
pub enum SynDecision {
    /// There is no such slot.
    NoSlot,
    /// The slot is busy: this reset refuses the SYN.
    Refuse(SegmentTx),
    /// A connection with these addresses is opened, from this initial sequence
    /// number.
    Open { tuple: FourTuple, iss: u32 },
}

/// How long the first answer to a SYN is awaited, in microseconds.
pub open spec fn handshake_delay_us(initial_rto_us: u32, min_rto_us: u32) -> int {
    max_int(initial_rto_us as int, min_rto_us as int)
}

impl Engine {
    /// Opens a listening slot. An address can be listened at once.
    pub fn listen(&mut self, ip: u32, port: u16) -> (r: Result<ListenHandle, Error>)
        ensures
            ({
                let taken = exists|i: int|
                    0 <= i < old(self).listen_slots@.len() && (
                    #[trigger] old(self).listen_slots@[i]).1.local_ip == ip && old(
                        self,
                    ).listen_slots@[i].1.local_port == port;
                match r {
                    Ok(h) => {
                        &&& !taken
                        &&& h == old(self).next_listen_id
                        &&& h < ListenHandle::MAX
                        &&& final(self).listen_slots@ == old(self).listen_slots@.push(
                            (
                                h,
                                ListenSlot {
                                    local_ip: ip,
                                    local_port: port,
                                    accept_queue: None,
                                    in_progress: None,
                                },
                            ),
                        )
                        &&& *final(self) == (Engine {
                            listen_slots: final(self).listen_slots,
                            next_listen_id: (h + 1) as ListenHandle,
                            ..*old(self)
                        })
                    },
                    Err(e) => {
                        &&& e == Error::InvalidArgument
                        &&& taken || old(self).next_listen_id == ListenHandle::MAX
                        &&& *final(self) == *old(self)
                    },
                }
            }),
            addresses_distinct(old(self).listen_slots@) ==> addresses_distinct(
                final(self).listen_slots@,
            ),
    {
        let mut i: usize = 0;
        while i < self.listen_slots.len()
            invariant
                i <= self.listen_slots@.len(),
                *self == *old(self),
                forall|k: int|
                    0 <= k < i ==> !((#[trigger] self.listen_slots@[k]).1.local_ip == ip
                        && self.listen_slots@[k].1.local_port == port),
            decreases self.listen_slots@.len() - i,
        {
            let s: ListenSlot = self.listen_slots[i].1;
            if s.local_ip == ip && s.local_port == port {
                return Err(Error::InvalidArgument);
            }
            i += 1;
        }
        let h: ListenHandle = self.next_listen_id;
        if h == ListenHandle::MAX {
            return Err(Error::InvalidArgument);
        }
        self.next_listen_id = h + 1;
        self.listen_slots.push(
            (
                h,
                ListenSlot {
                    local_ip: ip,
                    local_port: port,
                    accept_queue: None,
                    in_progress: None,
                },
            ),
        );
        Ok(h)
    }

    fn find_slot(&self, l: ListenHandle) -> (r: usize)
        ensures
            r == slot_of(self.listen_slots@, l),
            r <= self.listen_slots@.len(),
            r < self.listen_slots@.len() ==> self.listen_slots@[r as int].0 == l,
    {
        let mut i: usize = 0;
        while i < self.listen_slots.len()
            invariant
                i <= self.listen_slots@.len(),
                forall|k: int| 0 <= k < i ==> (#[trigger] self.listen_slots@[k]).0 != l,
            decreases self.listen_slots@.len() - i,
        {
            if self.listen_slots[i].0 == l {
                proof {
                    lemma_slot_of(self.listen_slots@, l, i as int);
                }
                return i;
            }
            i += 1;
        }
        proof {
            lemma_slot_of(self.listen_slots@, l, i as int);
        }
        i
    }

    fn find_opening(&self, h: ConnHandle) -> (r: usize)
        ensures
            r == slot_opening(self.listen_slots@, h),
            r <= self.listen_slots@.len(),
            r < self.listen_slots@.len() ==> self.listen_slots@[r as int].1.in_progress == Some(h),
    {
        let mut i: usize = 0;
        while i < self.listen_slots.len()
            invariant
                i <= self.listen_slots@.len(),
                forall|k: int|
                    0 <= k < i ==> (#[trigger] self.listen_slots@[k]).1.in_progress != Some(h),
            decreases self.listen_slots@.len() - i,
        {
            let p: Option<ConnHandle> = self.listen_slots[i].1.in_progress;
            let found: bool = match p {
                Some(x) => x == h,
                None => false,
            };
            if found {
                proof {
                    lemma_slot_opening(self.listen_slots@, h, i as int);
                }
                return i;
            }
            i += 1;
        }
        proof {
            lemma_slot_opening(self.listen_slots@, h, i as int);
        }
        i
    }

    fn set_slot(&mut self, i: usize, s: ListenSlot)
        ensures
            final(self).listen_slots@ == with_slot(old(self).listen_slots@, i as int, s),
            *final(self) == (Engine { listen_slots: final(self).listen_slots, ..*old(self) }),
    {
        if i < self.listen_slots.len() {
            let l: ListenHandle = self.listen_slots[i].0;
            self.listen_slots.set(i, (l, s));
        }
    }

    /// Takes the connection that waits on a slot, if any.
    pub fn accept_next(&mut self, l: ListenHandle) -> (r: Option<ConnHandle>)
        ensures
            ({
                let i = slot_of(old(self).listen_slots@, l);
                let s = old(self).listen_slots@[i].1;
                &&& r == (if i < old(self).listen_slots@.len() {
                    s.accept_queue
                } else {
                    None
                })
                &&& final(self).listen_slots@ == with_slot(
                    old(self).listen_slots@,
                    i,
                    ListenSlot { accept_queue: None, ..s },
                )
            }),
            *final(self) == (Engine { listen_slots: final(self).listen_slots, ..*old(self) }),
    {
        let i: usize = self.find_slot(l);
        if i == self.listen_slots.len() {
            return None;
        }
        let s: ListenSlot = self.listen_slots[i].1;
        self.set_slot(i, ListenSlot { accept_queue: None, ..s });
        s.accept_queue
    }

    /// The state of a connection.
    pub fn state_of(&self, h: ConnHandle) -> (r: Option<TcpState>)
        ensures
            r == (if self.has(h) {
                Some(self.conn(h).state)
            } else {
                None
            }),
    {
        match self.flow_table.get(h) {
            Some(c) => Some(c.state),
            None => None,
        }
    }

    /// The segment size that the peer of a connection takes.
    pub fn conn_peer_mss(&self, h: ConnHandle) -> (r: Option<u16>)
        ensures
            r == (if self.has(h) {
                Some(self.conn(h).peer_mss)
            } else {
                None
            }),
    {
        match self.flow_table.get(h) {
            Some(c) => Some(c.peer_mss),
            None => None,
        }
    }

    /// Moves a connection whose handshake is complete to the accept queue of
    /// its slot, if it is on one.
    pub fn listen_promote_to_accept_queue(&mut self, handle: ConnHandle)
        ensures
            final(self).listen_slots@ == promoted(old(self).listen_slots@, handle),
            *final(self) == (Engine { listen_slots: final(self).listen_slots, ..*old(self) }),
    {
        let i: usize = self.find_opening(handle);
        if i < self.listen_slots.len() {
            let s: ListenSlot = self.listen_slots[i].1;
            self.set_slot(
                i,
                ListenSlot { in_progress: None, accept_queue: Some(handle), ..s },
            );
        }
    }

    /// Frees the slot that a connection's handshake was on, if it is on one.
    pub fn clear_in_progress_for_conn(&mut self, handle: ConnHandle)
        ensures
            final(self).listen_slots@ == cleared(old(self).listen_slots@, handle),
            *final(self) == (Engine { listen_slots: final(self).listen_slots, ..*old(self) }),
    {
        let i: usize = self.find_opening(handle);
        if i < self.listen_slots.len() {
            let s: ListenSlot = self.listen_slots[i].1;
            self.set_slot(i, ListenSlot { in_progress: None, ..s });
        }
    }

    /// Decides about a SYN on a slot: a slot that serves a connection already
    /// refuses it.
    pub fn handle_inbound_syn_listen(
        &self,
        listen_h: ListenHandle,
        peer_ip: u32,
        peer_port: u16,
        iss_peer: u32,
        now_ns: u64,
    ) -> (r: SynDecision)
        ensures
            syn_decided(*self, listen_h, peer_ip, peer_port, iss_peer, now_ns, r),
    {
        let i: usize = self.find_slot(listen_h);
        if i == self.listen_slots.len() {
            return SynDecision::NoSlot;
        }
        let s: ListenSlot = self.listen_slots[i].1;
        let tuple = FourTuple {
            local_ip: s.local_ip,
            local_port: s.local_port,
            peer_ip,
            peer_port,
        };
        if s.accept_queue.is_some() || s.in_progress.is_some() {
            return SynDecision::Refuse(self.emit_rst_for_unsolicited_syn(&tuple, iss_peer));
        }
        SynDecision::Open { tuple, iss: self.iss_gen.next(&tuple, now_ns) }
    }

    /// Takes in a connection that a SYN opened on a free slot.
    pub fn admit_passive(&mut self, listen_h: ListenHandle, conn: TcpConn) -> (r: Result<
        ConnHandle,
        Error,
    >)
        requires
            old(self).wf(),
            conn.wf(),
            slot_of(old(self).listen_slots@, listen_h) < old(self).listen_slots@.len(),
        ensures
            final(self).wf(),
            passive_admitted(*old(self), *final(self), listen_h, conn, r),
    {
        match self.flow_table.insert(conn) {
            None => Err(Error::TooManyConns),
            Some(h) => {
                let i: usize = self.find_slot(listen_h);
                let s: ListenSlot = self.listen_slots[i].1;
                self.set_slot(i, ListenSlot { in_progress: Some(h), ..s });
                Ok(h)
            },
        }
    }

    /// Counts the SYN of a connection that the peer opened: the answer to it
    /// takes one number.
    pub fn passive_opened(&mut self, handle: ConnHandle)
        requires
            old(self).wf(),
            old(self).has(handle),
        ensures
            final(self).wf(),
            syn_numbered(*old(self), *final(self), handle),
    {
        if let Some(c) = self.flow_table.get_mut(handle) {
            c.snd_nxt = c.snd_nxt.wrapping_add(1);
        }
    }

    /// Records that a SYN-ACK was sent: the first one is counted as a SYN and
    /// its answer awaited, a further one is counted as a retransmission.
    pub fn emit_syn_ack_for_passive(&mut self, handle: ConnHandle, now_ns: u64)
        requires
            old(self).wf(),
            old(self).has(handle),
            old(self).timer_wheel.has_slot(),
            now_ns <= LATEST_NS,
        ensures
            final(self).wf(),
            syn_ack_recorded(*old(self), *final(self), handle, now_ns),
    {
        let armed: bool = match self.flow_table.get(handle) {
            Some(c) => c.syn_retrans_timer_id.is_some(),
            None => false,
        };
        if armed {
            inc(&mut self.counters.tcp.tx_retrans);
            return;
        }
        inc(&mut self.counters.tcp.tx_syn);
        let delay_us: u32 = max_u32(self.cfg.tcp_initial_rto_us, self.cfg.tcp_min_rto_us);
        self.arm_syn_timer(handle, now_ns + delay_us as u64 * 1_000);
    }

    /// Schedules the retransmission of a connection's SYN.
    pub fn arm_syn_timer(&mut self, handle: ConnHandle, fire_at_ns: u64)
        requires
            old(self).wf(),
            old(self).has(handle),
            old(self).timer_wheel.has_slot(),
        ensures
            final(self).wf(),
            syn_timer_armed(*old(self), *final(self), handle, fire_at_ns as int),
            *final(self) == (Engine {
                flow_table: final(self).flow_table,
                timer_wheel: final(self).timer_wheel,
                ..*old(self)
            }),
    {
        let id: TimerId = self.timer_wheel.add(
            TimerNode {
                fire_at_ns,
                owner_handle: handle,
                kind: TimerKind::SynRetrans,
                user_data: 0,
            },
        );
        if let Some(c) = self.flow_table.get_mut(handle) {
            c.syn_retrans_timer_id = Some(id);
            c.timer_ids.push(id);
        }
    }

    /// Takes a connection that the peer opened and reset during its handshake
    /// back: its slot listens again, the return is counted, its timer is
    /// cancelled and it is removed. Returns the references to drop. Nothing
    /// happens to a connection that we opened.
    pub fn re_listen_if_from_passive(&mut self, handle: ConnHandle) -> (r: Vec<Mbuf>)
        requires
            old(self).wf(),
        ensures
            final(self).wf(),
            re_listened(*old(self), *final(self), handle, r@),
    {
        let (passive, timer, refs) = match self.flow_table.get(handle) {
            Some(c) => {
                if !c.is_passive_open {
                    return Vec::new();
                }
                (c.is_passive_open, c.syn_retrans_timer_id, c.held_mbufs())
            },
            None => {
                return Vec::new();
            },
        };
        self.clear_in_progress_for_conn(handle);
        self.counters.tcp.count_transition(TcpState::SynReceived, TcpState::Listen);
        if let Some(id) = timer {
            let _ = self.timer_wheel.cancel(id);
        }
        self.flow_table.remove(handle);
        refs
    }
}

/// The retransmission of a connection's SYN was scheduled.
pub open spec fn syn_timer_armed(a: Engine, b: Engine, h: ConnHandle, fire_at_ns: int) -> bool {
    let c = a.conn(h);
    let d = b.conn(h);
    let id = d.syn_retrans_timer_id->0;
    &&& d.syn_retrans_timer_id is Some
    &&& !a.timer_wheel@.contains_key(id)
    &&& b.timer_wheel@ == a.timer_wheel@.insert(
        id,
        TimerNode {
            fire_at_ns: fire_at_ns as u64,
            owner_handle: h,
            kind: TimerKind::SynRetrans,
            user_data: 0,
        },
    )
    &&& a.timer_wheel.added(&b.timer_wheel, id, b.timer_wheel@[id])
    &&& conn_replaced(a.flow_table, b.flow_table, h, d)
    &&& d.timer_ids@ == c.timer_ids@.push(id)
    &&& d == (TcpConn { syn_retrans_timer_id: Some(id), timer_ids: d.timer_ids, ..c })
}

/// The engine once a SYN-ACK was sent.
pub open spec fn syn_ack_recorded(a: Engine, b: Engine, h: ConnHandle, now_ns: u64) -> bool {
    &&& a.conn(h).syn_retrans_timer_id is Some ==> b == (Engine {
        counters: Counters {
            tcp: TcpCounters {
                tx_retrans: a.counters.tcp.tx_retrans.wrapping_add(1),
                ..a.counters.tcp
            },
            ..a.counters
        },
        ..a
    })
    &&& a.conn(h).syn_retrans_timer_id is None ==> {
        &&& syn_timer_armed(
            a,
            b,
            h,
            now_ns + handshake_delay_us(
                a.cfg.tcp_initial_rto_us,
                a.cfg.tcp_min_rto_us,
            ) * 1_000,
        )
        &&& b == (Engine {
            flow_table: b.flow_table,
            timer_wheel: b.timer_wheel,
            counters: Counters {
                tcp: TcpCounters {
                    tx_syn: a.counters.tcp.tx_syn.wrapping_add(1),
                    ..a.counters.tcp
                },
                ..a.counters
            },
            ..a
        })
    }
}

/// The engine once a reset handshake was taken back; `r` are the references to drop.
pub open spec fn re_listened(a: Engine, b: Engine, h: ConnHandle, r: Seq<Mbuf>) -> bool {
    &&& !(a.has(h) && a.conn(h).is_passive_open) ==> b
        == a && r.len() == 0
    &&& a.has(h) && a.conn(h).is_passive_open ==> {
        let c = a.conn(h);
        &&& r == c.held()
        &&& b.listen_slots@ == cleared(a.listen_slots@, h)
        &&& b.flow_table@ == a.flow_table@.remove(h)
        &&& b.flow_table.max == a.flow_table.max
        &&& b.timer_wheel@ == (match c.syn_retrans_timer_id {
            Some(id) => a.timer_wheel@.remove(id),
            None => a.timer_wheel@,
        })
        &&& a.timer_wheel.only_left(&b.timer_wheel)
        &&& a.counters.tcp.with_transition(
            TcpState::SynReceived,
            TcpState::Listen,
            b.counters.tcp.state_trans,
        )
        &&& b == (Engine {
            flow_table: b.flow_table,
            timer_wheel: b.timer_wheel,
            listen_slots: b.listen_slots,
            counters: Counters {
                tcp: TcpCounters {
                    state_trans: b.counters.tcp.state_trans,
                    ..a.counters.tcp
                },
                ..a.counters
            },
            ..a
        })
    }
}

/// What is decided about a SYN on a slot: a slot that serves a connection
/// already refuses it.
pub open spec fn syn_decided(
    e: Engine,
    l: ListenHandle,
    peer_ip: u32,
    peer_port: u16,
    iss_peer: u32,
    now_ns: u64,
    r: SynDecision,
) -> bool {
    let i = slot_of(e.listen_slots@, l);
    let s = e.listen_slots@[i].1;
    let t = FourTuple { local_ip: s.local_ip, local_port: s.local_port, peer_ip, peer_port };
    match r {
        SynDecision::NoSlot => i == e.listen_slots@.len(),
        SynDecision::Refuse(seg) => {
            &&& i < e.listen_slots@.len()
            &&& is_busy(s)
            &&& is_reset(seg, e, t, 0, iss_peer.wrapping_add(1), RST_ACK)
        },
        SynDecision::Open { tuple, iss } => {
            &&& i < e.listen_slots@.len()
            &&& !is_busy(s)
            &&& tuple == t
            &&& iss == e.iss_gen.iss_at(t, now_ns)
        },
    }
}

/// The engine once a connection that a SYN opened was taken in, where there
/// was room for it.
pub open spec fn passive_admitted(
    a: Engine,
    b: Engine,
    l: ListenHandle,
    conn: TcpConn,
    r: Result<ConnHandle, Error>,
) -> bool {
    let i = slot_of(a.listen_slots@, l);
    match r {
        Ok(h) => {
            &&& !a.flow_table.is_full()
            &&& !a.has(h)
            &&& b.flow_table@ == a.flow_table@.insert(h, conn)
            &&& b.flow_table.max == a.flow_table.max
            &&& b.listen_slots@ == with_slot(
                a.listen_slots@,
                i,
                ListenSlot { in_progress: Some(h), ..a.listen_slots@[i].1 },
            )
            &&& b == (Engine { flow_table: b.flow_table, listen_slots: b.listen_slots, ..a })
        },
        Err(e) => {
            &&& e == Error::TooManyConns
            &&& a.flow_table.is_full()
            &&& b == a
        },
    }
}

/// The engine once the answer to the peer's SYN took its number.
pub open spec fn syn_numbered(a: Engine, b: Engine, h: ConnHandle) -> bool {
    &&& conn_replaced(
        a.flow_table,
        b.flow_table,
        h,
        (TcpConn { snd_nxt: a.conn(h).snd_nxt.wrapping_add(1), ..a.conn(h) }),
    )
    &&& b == (Engine { flow_table: b.flow_table, ..a })
}

} // verus!
