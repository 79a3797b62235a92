//! The engine: its state, and what every part of it does to that state.
use vstd::prelude::*;

use crate::counters::{inc, Counters, TcpCounters};
use crate::ena_xstats::XstatMap;
use crate::engine_config::{
    edges_ascend, edges_unset, resolve_rx_mempool_size, rx_pool_size_for, timer_slot_hint,
    validate_and_default_histogram_edges, EngineConfig, DEFAULT_RTT_HISTOGRAM_EDGES_US,
};
use crate::engine_port::{Features, PortConfigOutcome, RxTimestamp};
use crate::errno::ETIMEDOUT;
use crate::error::Error;
use crate::flow_table::{ConnHandle, FlowTable};
use crate::icmp::PmtuTable;
use crate::iss::IssGen;
use crate::mempool::Mbuf;
use crate::tcp_conn::TcpConn;
use crate::tcp_events::{EventLog, EventQueue, InternalEvent};
use crate::tcp_retrans::mbufs_of;
use crate::tcp_state::TcpState;
use crate::tcp_timer_wheel::{fired_of, TimerId, TimerNode, TimerWheel};
use crate::test_server::{ListenHandle, ListenSlot};

verus! {

/// The last time at which every delay of a timer still ends before the end of
/// time.
pub const LATEST_NS: u64 = 18_446_739_778_742_256_615;

/// The state of an engine. The driver's buffers and queues are not part of it:
/// whoever runs the engine carries out what it decides and reports back.
pub struct Engine {
    pub cfg: EngineConfig,
    pub features: Features,
    pub rtt_histogram_edges: [u32; 15],
    pub counters: Counters,
    pub rx_mempool_size: u32,
    pub our_mac: [u8; 6],
    pub pmtu: PmtuTable,
    /// When we last announced our address.
    pub last_garp_ns: u64,
    pub secondary_local_ips: Vec<u32>,
    pub flow_table: FlowTable,
    pub events: EventQueue,
    pub iss_gen: IssGen,
    pub last_ephemeral_port: u16,
    pub timer_wheel: TimerWheel,
    /// Data frames that wait for the end of the poll.
    pub tx_pending_data: Vec<Mbuf>,
    /// Receive drops when the poll began.
    pub rx_drop_nomem_prev: u64,
    /// Frames sent when the poll began.
    pub tx_pkts_prev: u64,
    pub tx_cksum_offload_active: bool,
    pub rx_cksum_offload_active: bool,
    pub rss_hash_offload_active: bool,
    pub rx_timestamp: RxTimestamp,
    pub driver_name: [u8; 32],
    pub xstat_map: XstatMap,
    pub listen_slots: Vec<(ListenHandle, ListenSlot)>,
    pub next_listen_id: ListenHandle,
}

/// Buffers to let go of: those that are freed, and those of which a reference
/// is dropped.
#[derive(Debug)]
pub struct Released {
    pub freed: Vec<Mbuf>,
    pub refs: Vec<Mbuf>,
}

impl Released {
    /// Nothing to let go of.
    pub fn nothing() -> (r: Self)
        ensures
            r.freed@ == Seq::<Mbuf>::empty(),
            r.refs@ == Seq::<Mbuf>::empty(),
    {
        Released { freed: Vec::new(), refs: Vec::new() }
    }
}

/// What the driver and the system told while the engine was brought up.
pub struct BringUp {
    pub port: PortConfigOutcome,
    pub counters: Counters,
    pub rx_timestamp: RxTimestamp,
    pub our_mac: [u8; 6],
    pub xstat_map: XstatMap,
    pub iss_gen: IssGen,
}

/// The list without an identifier.
pub open spec fn without_id(ids: Seq<TimerId>, id: TimerId) -> Seq<TimerId>
    decreases ids.len(),
{
    if ids.len() == 0 {
        ids
    } else if ids.last() == id {
        without_id(ids.drop_last(), id)
    } else {
        without_id(ids.drop_last(), id).push(ids.last())
    }
}

/// What is left of a list once an identifier is taken out does not hold it,
/// and holds all the others.
pub proof fn lemma_without_id(ids: Seq<TimerId>, id: TimerId)
    ensures
        !without_id(ids, id).contains(id),
        forall|o: TimerId|
            o != id ==> (#[trigger] without_id(ids, id).contains(o) <==> ids.contains(o)),
    decreases ids.len(),
{
    if ids.len() > 0 {
        let r = ids.drop_last();
        lemma_without_id(r, id);
        let w = without_id(ids, id);
        let v = without_id(r, id);
        assert forall|o: TimerId| o != id implies (#[trigger] w.contains(o) <==> ids.contains(
            o,
        )) by {
            if ids.contains(o) {
                let k = choose|k: int| 0 <= k < ids.len() && ids[k] == o;
                if k < ids.len() - 1 {
                    assert(r[k] == o);
                    assert(v.contains(o));
                    let m = choose|m: int| 0 <= m < v.len() && v[m] == o;
                    assert(w[m] == o);
                } else {
                    assert(w[w.len() - 1] == o);
                }
            }
            if w.contains(o) {
                let m = choose|m: int| 0 <= m < w.len() && w[m] == o;
                if m < v.len() {
                    assert(v[m] == o);
                    assert(v.contains(o));
                    assert(r.contains(o));
                    let k = choose|k: int| 0 <= k < r.len() && r[k] == o;
                    assert(ids[k] == o);
                } else {
                    assert(ids[ids.len() - 1] == o);
                }
            }
        }
        if w.contains(id) {
            let m = choose|m: int| 0 <= m < w.len() && w[m] == id;
            assert(m < v.len());
            assert(v[m] == id);
        }
    }
}

/// Takes an identifier out of a list.
pub fn drop_id(ids: &mut Vec<TimerId>, id: TimerId)
    ensures
        final(ids)@ == without_id(old(ids)@, id),
{
    let mut kept: Vec<TimerId> = Vec::new();
    let mut i: usize = 0;
    while i < ids.len()
        invariant
            i <= ids@.len(),
            ids@ == old(ids)@,
            kept@ == without_id(ids@.take(i as int), id),
        decreases ids@.len() - i,
    {
        assert(ids@.take(i + 1).drop_last() =~= ids@.take(i as int));
        assert(ids@.take(i + 1).last() == ids@[i as int]);
        if ids[i] != id {
            kept.push(ids[i]);
        }
        i += 1;
    }
    assert(ids@.take(i as int) =~= ids@);
    *ids = kept;
}

/// The timer in an optional field, as a list.
pub open spec fn opt_id(o: Option<TimerId>) -> Seq<TimerId> {
    match o {
        Some(id) => seq![id],
        None => Seq::empty(),
    }
}

/// Every timer of a connection.
pub open spec fn timers_of(c: TcpConn) -> Seq<TimerId> {
    c.timer_ids@ + opt_id(c.rto_timer_id) + opt_id(c.tlp_timer_id) + opt_id(
        c.syn_retrans_timer_id,
    )
}

/// Lists every timer of a connection.
pub fn conn_timers(c: &TcpConn) -> (r: Vec<TimerId>)
    ensures
        r@ == timers_of(*c),
{
    let mut out: Vec<TimerId> = Vec::new();
    let mut i: usize = 0;
    while i < c.timer_ids.len()
        invariant
            i <= c.timer_ids@.len(),
            out@ == c.timer_ids@.take(i as int),
        decreases c.timer_ids@.len() - i,
    {
        out.push(c.timer_ids[i]);
        i += 1;
        assert(out@ =~= c.timer_ids@.take(i as int));
    }
    assert(out@ =~= c.timer_ids@);
    if let Some(id) = c.rto_timer_id {
        out.push(id);
    }
    assert(out@ =~= c.timer_ids@ + opt_id(c.rto_timer_id));
    if let Some(id) = c.tlp_timer_id {
        out.push(id);
    }
    assert(out@ =~= c.timer_ids@ + opt_id(c.rto_timer_id) + opt_id(c.tlp_timer_id));
    if let Some(id) = c.syn_retrans_timer_id {
        out.push(id);
    }
    assert(out@ =~= timers_of(*c));
    out
}

/// What is pending once some timers are cancelled.
pub open spec fn cancelled(m: Map<TimerId, TimerNode>, ids: Seq<TimerId>) -> Map<
    TimerId,
    TimerNode,
> {
    m.remove_keys(ids.to_set())
}

/// The connection once it has gone to another state; TIME_WAIT has a deadline.
pub open spec fn gone_to(c: TcpConn, to: TcpState, msl_ms: u32, now_ns: u64) -> TcpConn {
    TcpConn {
        state: to,
        time_wait_deadline_ns: if to == TcpState::TimeWait {
            Some(time_wait_end(msl_ms, now_ns))
        } else {
            c.time_wait_deadline_ns
        },
        ..c
    }
}

/// When a TIME_WAIT that begins now ends: after two segment lifetimes.
pub open spec fn time_wait_end(msl_ms: u32, now_ns: u64) -> u64 {
    now_ns.saturating_add((2 * (msl_ms * 1_000_000)) as u64)
}

/// When a TIME_WAIT that begins now ends.
pub fn time_wait_deadline(msl_ms: u32, now_ns: u64) -> (r: u64)
    ensures
        r == time_wait_end(msl_ms, now_ns),
{
    let msl_ns: u64 = msl_ms as u64 * 1_000_000;
    now_ns.saturating_add(2 * msl_ns)
}

/// The tables differ in one connection only.
pub open spec fn conn_replaced(a: FlowTable, b: FlowTable, h: ConnHandle, c: TcpConn) -> bool {
    &&& b@ == a@.insert(h, c)
    &&& b.max == a.max
    &&& b.slots@.len() == a.slots@.len()
}

impl Engine {
    /// The parts are well-formed.
    pub open spec fn wf(&self) -> bool {
        &&& self.flow_table.wf()
        &&& self.timer_wheel.wf()
        &&& self.xstat_map.wf()
    }

    /// The queued events and their counts.
    pub open spec fn log(&self) -> EventLog {
        self.events.log(self.counters.obs)
    }

    /// There is a connection under the handle.
    pub open spec fn has(&self, h: ConnHandle) -> bool {
        self.flow_table@.contains_key(h)
    }

    /// The connection under the handle.
    pub open spec fn conn(&self, h: ConnHandle) -> TcpConn {
        self.flow_table@[h]
    }

    /// The engine that a configuration and a port make; refused for edges that
    /// do not ascend.
    pub fn new(cfg: EngineConfig, features: Features, up: BringUp) -> (r: Result<Self, Error>)
        requires
            up.xstat_map.wf(),
        ensures
            match r {
                Ok(e) => {
                    &&& e.wf()
                    &&& edges_unset(cfg.rtt_histogram_bucket_edges_us) || edges_ascend(
                        cfg.rtt_histogram_bucket_edges_us,
                    )
                    &&& e.rtt_histogram_edges == (if edges_unset(
                        cfg.rtt_histogram_bucket_edges_us,
                    ) {
                        DEFAULT_RTT_HISTOGRAM_EDGES_US
                    } else {
                        cfg.rtt_histogram_bucket_edges_us
                    })
                    &&& e.cfg == cfg
                    &&& e.features == features
                    &&& e.counters == up.counters
                    &&& e.rx_mempool_size == rx_pool_size_for(cfg)
                    &&& e.our_mac == up.our_mac
                    &&& e.pmtu@ == Map::<u32, u16>::empty()
                    &&& e.last_garp_ns == 0
                    &&& e.secondary_local_ips@ == cfg.secondary_local_ips@
                    &&& e.flow_table@ == Map::<ConnHandle, TcpConn>::empty()
                    &&& e.flow_table.max == cfg.max_connections
                    &&& e.events.q@ == Seq::<InternalEvent>::empty()
                    &&& e.events.cap == cfg.event_queue_soft_cap
                    &&& e.iss_gen == up.iss_gen
                    &&& e.last_ephemeral_port == 49151
                    &&& e.timer_wheel@ == Map::<TimerId, TimerNode>::empty()
                    &&& e.timer_wheel.has_slot()
                    &&& e.tx_pending_data@ == Seq::<Mbuf>::empty()
                    &&& e.rx_drop_nomem_prev == 0
                    &&& e.tx_pkts_prev == 0
                    &&& e.tx_cksum_offload_active == up.port.tx_cksum_offload_active
                    &&& e.rx_cksum_offload_active == up.port.rx_cksum_offload_active
                    &&& e.rss_hash_offload_active == up.port.rss_hash_offload_active
                    &&& e.rx_timestamp == up.rx_timestamp
                    &&& e.driver_name == up.port.driver_name
                    &&& e.xstat_map == up.xstat_map
                    &&& e.listen_slots@ == Seq::<(ListenHandle, ListenSlot)>::empty()
                    &&& e.next_listen_id == 1
                },
                Err(err) => {
                    &&& err == Error::InvalidHistogramEdges
                    &&& !edges_unset(cfg.rtt_histogram_bucket_edges_us)
                    &&& !edges_ascend(cfg.rtt_histogram_bucket_edges_us)
                },
            },
    {
        let edges = match validate_and_default_histogram_edges(&cfg.rtt_histogram_bucket_edges_us) {
            Ok(e) => e,
            Err(e) => {
                return Err(e);
            },
        };
        let mut secondary: Vec<u32> = Vec::new();
        let mut i: usize = 0;
        while i < cfg.secondary_local_ips.len()
            invariant
                i <= cfg.secondary_local_ips@.len(),
                secondary@ == cfg.secondary_local_ips@.take(i as int),
            decreases cfg.secondary_local_ips@.len() - i,
        {
            secondary.push(cfg.secondary_local_ips[i]);
            i += 1;
            assert(secondary@ =~= cfg.secondary_local_ips@.take(i as int));
        }
        assert(secondary@ =~= cfg.secondary_local_ips@);
        Ok(
            Engine {
                features,
                rtt_histogram_edges: edges,
                counters: up.counters,
                rx_mempool_size: resolve_rx_mempool_size(&cfg),
                our_mac: up.our_mac,
                pmtu: PmtuTable::new(),
                last_garp_ns: 0,
                secondary_local_ips: secondary,
                flow_table: FlowTable::new(cfg.max_connections),
                events: EventQueue::with_cap(cfg.event_queue_soft_cap as usize),
                iss_gen: up.iss_gen,
                last_ephemeral_port: 49151,
                timer_wheel: TimerWheel::new(timer_slot_hint(&cfg)),
                tx_pending_data: Vec::with_capacity(cfg.tx_ring_size as usize),
                rx_drop_nomem_prev: 0,
                tx_pkts_prev: 0,
                tx_cksum_offload_active: up.port.tx_cksum_offload_active,
                rx_cksum_offload_active: up.port.rx_cksum_offload_active,
                rss_hash_offload_active: up.port.rss_hash_offload_active,
                rx_timestamp: up.rx_timestamp,
                driver_name: up.port.driver_name,
                xstat_map: up.xstat_map,
                listen_slots: Vec::new(),
                next_listen_id: 1,
                cfg,
            },
        )
    }

    /// Raises an event.
    pub fn push_event(&mut self, ev: InternalEvent)
        ensures
            final(self).log() == old(self).log().with(ev),
            *final(self) == (Engine {
                events: final(self).events,
                counters: Counters { obs: final(self).counters.obs, ..old(self).counters },
                ..*old(self)
            }),
    {
        self.events.push(ev, &mut self.counters.obs);
    }

    /// Moves a connection to another state: the state, the deadline of
    /// TIME_WAIT, the count of the transition and the event. Nothing happens
    /// where there is no connection or it is in that state already.
    pub fn transition_conn(&mut self, handle: ConnHandle, to: TcpState, now_ns: u64)
        requires
            old(self).wf(),
        ensures
            final(self).wf(),
            !old(self).has(handle) || old(self).conn(handle).state == to ==> *final(self) == *old(
                self,
            ),
            old(self).has(handle) && old(self).conn(handle).state != to ==> {
                &&& conn_replaced(
                    old(self).flow_table,
                    final(self).flow_table,
                    handle,
                    gone_to(old(self).conn(handle), to, old(self).cfg.tcp_msl_ms, now_ns),
                )
                &&& final(self).log() == old(self).log().with(
                    InternalEvent::StateChange {
                        conn: handle,
                        from: old(self).conn(handle).state,
                        to,
                        emitted_ts_ns: now_ns,
                    },
                )
                &&& old(self).counters.tcp.with_transition(
                    old(self).conn(handle).state,
                    to,
                    final(self).counters.tcp.state_trans,
                )
                &&& *final(self) == (Engine {
                    flow_table: final(self).flow_table,
                    events: final(self).events,
                    counters: Counters {
                        obs: final(self).counters.obs,
                        tcp: TcpCounters {
                            state_trans: final(self).counters.tcp.state_trans,
                            ..old(self).counters.tcp
                        },
                        ..old(self).counters
                    },
                    ..*old(self)
                })
            },
    {
        let msl_ms: u32 = self.cfg.tcp_msl_ms;
        let from: TcpState = match self.flow_table.get(handle) {
            Some(c) => c.state,
            None => {
                return;
            },
        };
        if from == to {
            return;
        }
        if let Some(c) = self.flow_table.get_mut(handle) {
            c.state = to;
            if to == TcpState::TimeWait {
                c.time_wait_deadline_ns = Some(time_wait_deadline(msl_ms, now_ns));
            }
        }
        self.counters.tcp.count_transition(from, to);
        self.push_event(
            InternalEvent::StateChange { conn: handle, from, to, emitted_ts_ns: now_ns },
        );
    }

    /// Cancels some timers.
    pub fn cancel_timers(&mut self, ids: &[TimerId])
        requires
            old(self).wf(),
        ensures
            final(self).wf(),
            final(self).timer_wheel@ == cancelled(old(self).timer_wheel@, ids@),
            old(self).timer_wheel.only_left(&final(self).timer_wheel),
            *final(self) == (Engine { timer_wheel: final(self).timer_wheel, ..*old(self) }),
    {
        let mut i: usize = 0;
        assert(cancelled(self.timer_wheel@, ids@.take(0)) =~= self.timer_wheel@);
        while i < ids.len()
            invariant
                i <= ids@.len(),
                self.wf(),
                self.timer_wheel@ == cancelled(old(self).timer_wheel@, ids@.take(i as int)),
                old(self).timer_wheel.only_left(&self.timer_wheel),
                *self == (Engine { timer_wheel: self.timer_wheel, ..*old(self) }),
            decreases ids@.len() - i,
        {
            let _ = self.timer_wheel.cancel(ids[i]);
            proof {
                let a = ids@.take(i as int);
                let b = ids@.take(i + 1);
                assert forall|x: TimerId| b.to_set().contains(x) <==> a.to_set().contains(x) || x
                    == ids@[i as int] by {
                    if a.to_set().contains(x) {
                        let k = choose|k: int| 0 <= k < a.len() && a[k] == x;
                        assert(b[k] == x);
                    }
                    assert(b[i as int] == ids@[i as int]);
                    if b.to_set().contains(x) {
                        let k = choose|k: int| 0 <= k < b.len() && b[k] == x;
                        if k < i {
                            assert(a[k] == x);
                        }
                    }
                }
                assert(cancelled(old(self).timer_wheel@, b) =~= cancelled(
                    old(self).timer_wheel@,
                    a,
                ).remove(ids@[i as int]));
            }
            i += 1;
        }
        assert(ids@.take(i as int) =~= ids@);
    }

    /// Removes a connection and cancels its timers; returns the references to
    /// buffers that it held.
    pub fn end_conn(&mut self, handle: ConnHandle) -> (r: Vec<Mbuf>)
        requires
            old(self).wf(),
        ensures
            final(self).wf(),
            !old(self).has(handle) ==> *final(self) == *old(self) && r@.len() == 0,
            old(self).has(handle) ==> {
                &&& r@ == old(self).conn(handle).held()
                &&& final(self).flow_table@ == old(self).flow_table@.remove(handle)
                &&& final(self).flow_table.max == old(self).flow_table.max
                &&& final(self).timer_wheel@ == cancelled(
                    old(self).timer_wheel@,
                    timers_of(old(self).conn(handle)),
                )
                &&& old(self).timer_wheel.only_left(&final(self).timer_wheel)
                &&& *final(self) == (Engine {
                    flow_table: final(self).flow_table,
                    timer_wheel: final(self).timer_wheel,
                    ..*old(self)
                })
            },
    {
        let (ids, refs) = match self.flow_table.get(handle) {
            Some(c) => (conn_timers(c), c.held_mbufs()),
            None => {
                return Vec::new();
            },
        };
        self.cancel_timers(ids.as_slice());
        self.flow_table.remove(handle);
        refs
    }

    /// Gives a connection up that the peer no longer answers on: it is closed
    /// without a further segment, its timers are cancelled and its buffers let
    /// go of.
    pub fn force_close_etimedout(&mut self, handle: ConnHandle, now_ns: u64) -> (r: Released)
        requires
            old(self).wf(),
        ensures
            final(self).wf(),
            !old(self).has(handle) ==> *final(self) == *old(self) && r.freed@.len() == 0
                && r.refs@.len() == 0,
            old(self).has(handle) ==> timed_out(*old(self), *final(self), handle, now_ns)
                && r.freed@ == mbufs_of(old(self).conn(handle).snd_retrans@) && r.refs@ == old(
                self,
            ).conn(handle).held(),
    {
        let freed: Vec<Mbuf> = match self.flow_table.get(handle) {
            Some(c) => c.snd_retrans.mbufs(),
            None => {
                return Released::nothing();
            },
        };
        self.transition_conn(handle, TcpState::Closed, now_ns);
        self.push_event(
            InternalEvent::Error { conn: handle, err: -ETIMEDOUT, emitted_ts_ns: now_ns },
        );
        self.push_event(
            InternalEvent::Closed { conn: handle, err: -ETIMEDOUT, emitted_ts_ns: now_ns },
        );
        let ghost mid = *self;
        let refs: Vec<Mbuf> = self.end_conn(handle);
        inc(&mut self.counters.tcp.conn_close);
        assert(self.flow_table@ =~= old(self).flow_table@.remove(handle));
        Released { freed, refs }
    }
}

/// The log once a connection has gone to another state.
pub open spec fn log_gone_to(
    l: EventLog,
    handle: ConnHandle,
    from: TcpState,
    to: TcpState,
    now_ns: u64,
) -> EventLog {
    if from == to {
        l
    } else {
        l.with(InternalEvent::StateChange { conn: handle, from, to, emitted_ts_ns: now_ns })
    }
}

/// The transition counts once a connection has gone to another state.
pub open spec fn counted_gone_to(
    c: TcpCounters,
    from: TcpState,
    to: TcpState,
    m: [[u64; 11]; 11],
) -> bool {
    if from == to {
        m == c.state_trans
    } else {
        c.with_transition(from, to, m)
    }
}

/// The engine once a connection was given up for want of an answer.
pub open spec fn timed_out(a: Engine, b: Engine, handle: ConnHandle, now_ns: u64) -> bool {
    let c = a.conn(handle);
    &&& b.flow_table@ == a.flow_table@.remove(handle)
    &&& b.flow_table.max == a.flow_table.max
    &&& b.timer_wheel@ == cancelled(a.timer_wheel@, timers_of(c))
    &&& a.timer_wheel.only_left(&b.timer_wheel)
    &&& b.log() == log_gone_to(a.log(), handle, c.state, TcpState::Closed, now_ns).with(
        InternalEvent::Error { conn: handle, err: (-ETIMEDOUT) as i32, emitted_ts_ns: now_ns },
    ).with(
        InternalEvent::Closed { conn: handle, err: (-ETIMEDOUT) as i32, emitted_ts_ns: now_ns },
    )
    &&& counted_gone_to(
        a.counters.tcp,
        c.state,
        TcpState::Closed,
        b.counters.tcp.state_trans,
    )
    &&& b == (Engine {
        flow_table: b.flow_table,
        timer_wheel: b.timer_wheel,
        events: b.events,
        counters: Counters {
            obs: b.counters.obs,
            tcp: TcpCounters {
                state_trans: b.counters.tcp.state_trans,
                conn_close: a.counters.tcp.conn_close.wrapping_add(1),
                ..a.counters.tcp
            },
            ..a.counters
        },
        ..a
    })
}

/// A connection that is gone has no timer left: none of those that it had can
/// fire any more.
pub proof fn law_ended_conn_has_no_timer(
    m: Map<TimerId, TimerNode>,
    c: TcpConn,
    id: TimerId,
    now_ns: u64,
    fired: Seq<(TimerId, TimerNode)>,
)
    requires
        timers_of(c).contains(id),
        fired_of(cancelled(m, timers_of(c)), now_ns, fired),
    ensures
        forall|k: int| 0 <= k < fired.len() ==> (#[trigger] fired[k]).0 != id,
{
    assert(timers_of(c).to_set().contains(id));
    assert(!cancelled(m, timers_of(c)).contains_key(id));
}

} // verus!
