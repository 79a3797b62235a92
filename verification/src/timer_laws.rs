//! When the engine's timers are due, and what becomes of a connection whose
//! timers run out.
use vstd::prelude::*;

use crate::engine::{Engine, Released, LATEST_NS};
use crate::engine_conn::{handshake_sent, put_on_flight};
use crate::engine_input::ack_settled;
use crate::engine_listen::syn_ack_recorded;
use crate::engine_timers::{
    probe_armed, rto_fired, rto_settled, syn_fired, syn_resent, tlp_fired, RtoStep, SynStep,
};
use crate::flow_table::ConnHandle;
use crate::mempool::Mbuf;
use crate::tcp_retrans::RetransEntry;
use crate::tcp_state::TcpState;
use crate::tcp_timer_wheel::{TimerId, TimerKind};

verus! {

/// A timer of a connection is pending under `id`, `after_ns` from `now_ns`.
pub open spec fn due_in(
    e: Engine,
    id: Option<TimerId>,
    h: ConnHandle,
    kind: TimerKind,
    now_ns: u64,
    after_ns: int,
) -> bool {
    &&& id is Some
    &&& e.timer_wheel@.contains_key(id->0)
    &&& e.timer_wheel@[id->0].owner_handle == h
    &&& e.timer_wheel@[id->0].kind == kind
    &&& e.timer_wheel@[id->0].fire_at_ns - now_ns == after_ns
}

/// A retransmission timer that is armed anew is due after the connection's
/// timeout, which is in microseconds: a thousand nanoseconds each. The timeout
/// has doubled by then, up to its maximum, unless the connection is set not to
/// back off.
pub proof fn law_timeout_backs_off(
    a: Engine,
    b: Engine,
    h: ConnHandle,
    lost: Seq<u16>,
    now_ns: u64,
)
    requires
        a.has(h),
        now_ns <= LATEST_NS,
        rto_settled(a, b, h, lost, now_ns, None),
    ensures
        b.has(h),
        ({
            let was = a.conn(h).rtt_est;
            let is = b.conn(h).rtt_est;
            &&& a.conn(h).rto_no_backoff ==> is.rto == was.rto
            &&& !a.conn(h).rto_no_backoff && 2 * was.rto <= was.max_rto ==> is.rto == 2 * was.rto
            &&& !a.conn(h).rto_no_backoff && 2 * was.rto > was.max_rto ==> is.rto == was.max_rto
            &&& is.max_rto == was.max_rto
            &&& is.min_rto == was.min_rto
            &&& is.srtt == was.srtt
            &&& is.rttvar == was.rttvar
            &&& is.rto > 0 ==> due_in(
                b,
                b.conn(h).rto_timer_id,
                h,
                TimerKind::Rto,
                now_ns,
                1_000 * is.rto,
            )
            &&& b.conn(h).snd_retrans@ == a.conn(h).snd_retrans@
            &&& b.conn(h).snd_una == a.conn(h).snd_una
            &&& b.conn(h).snd_nxt == a.conn(h).snd_nxt
            &&& b.conn(h).state == a.conn(h).state
        }),
        b.counters.tcp.tx_rto == a.counters.tcp.tx_rto.wrapping_add(1),
        b.counters.tcp.conn_timeout_retrans == a.counters.tcp.conn_timeout_retrans,
        forall|o: ConnHandle| o != h ==> (#[trigger] b.has(o) <==> a.has(o)),
        forall|o: ConnHandle| o != h && a.has(o) ==> #[trigger] b.conn(o) == a.conn(o),
{
}

/// Successive timeouts of a connection lie twice as far apart each time, up to
/// the maximum.
pub proof fn law_timeouts_double(
    a: Engine,
    b: Engine,
    c: Engine,
    d: Engine,
    h: ConnHandle,
    first: Seq<u16>,
    second: Seq<u16>,
    first_ns: u64,
    second_ns: u64,
)
    requires
        a.has(h),
        c.has(h),
        first_ns <= LATEST_NS,
        second_ns <= LATEST_NS,
        rto_settled(a, b, h, first, first_ns, None),
        rto_settled(c, d, h, second, second_ns, None),
        c.conn(h).rtt_est == b.conn(h).rtt_est,
        !a.conn(h).rto_no_backoff,
        !c.conn(h).rto_no_backoff,
        b.conn(h).rtt_est.rto > 0,
        b.conn(h).rtt_est.max_rto > 0,
    ensures
        ({
            let gap = b.timer_wheel@[b.conn(h).rto_timer_id->0].fire_at_ns - first_ns;
            let next = d.timer_wheel@[d.conn(h).rto_timer_id->0].fire_at_ns - second_ns;
            let most = 1_000 * b.conn(h).rtt_est.max_rto;
            &&& 2 * gap <= most ==> next == 2 * gap
            &&& 2 * gap > most ==> next == most
        }),
{
    law_timeout_backs_off(a, b, h, first, first_ns);
    law_timeout_backs_off(c, d, h, second, second_ns);
}

/// A connection is given up exactly where its oldest segment was sent more
/// often than the limit. It is gone then, with all its timers, its buffers are
/// let go of, and the application is told.
pub proof fn law_timeout_gives_up(
    a: Engine,
    b: Engine,
    h: ConnHandle,
    lost: Seq<u16>,
    now_ns: u64,
    r: Option<Released>,
)
    requires
        a.has(h),
        rto_settled(a, b, h, lost, now_ns, r),
    ensures
        r is Some <==> a.conn(h).snd_retrans@.len() > 0 && a.conn(h).snd_retrans@[0].xmit_count
            > a.cfg.tcp_max_retrans_count,
        r matches Some(rel) ==> {
            &&& !b.has(h)
            &&& rel.freed@.len() == a.conn(h).snd_retrans@.len()
            &&& forall|i: int|
                0 <= i < rel.freed@.len() ==> #[trigger] rel.freed@[i]
                    == a.conn(h).snd_retrans@[i].mbuf
            &&& a.conn(h).rto_timer_id matches Some(id) ==> !b.timer_wheel@.contains_key(id)
            &&& a.conn(h).tlp_timer_id matches Some(id) ==> !b.timer_wheel@.contains_key(id)
            &&& a.conn(h).syn_retrans_timer_id matches Some(id) ==> !b.timer_wheel@.contains_key(
                id,
            )
            &&& b.counters.tcp.conn_timeout_retrans
                == a.counters.tcp.conn_timeout_retrans.wrapping_add(1)
            &&& b.counters.tcp.conn_close == a.counters.tcp.conn_close.wrapping_add(1)
            &&& b.counters.tcp.tx_rto == a.counters.tcp.tx_rto.wrapping_add(1)
        },
{
    if r is Some {
        let c = a.conn(h);
        let ids = crate::engine::timers_of(c);
        let n = c.timer_ids@.len();
        if c.rto_timer_id is Some {
            assert(ids[n as int] == c.rto_timer_id->0);
        }
        if c.tlp_timer_id is Some {
            let k = n + crate::engine::opt_id(c.rto_timer_id).len();
            assert(ids[k as int] == c.tlp_timer_id->0);
        }
        if c.syn_retrans_timer_id is Some {
            assert(ids.last() == c.syn_retrans_timer_id->0);
        }
        assert forall|id: TimerId| ids.contains(id) implies ids.to_set().contains(id) by {}
    }
}

/// The first segment in flight arms the retransmission timer, for the
/// connection's timeout from then; a further one leaves the timers alone.
pub proof fn law_first_in_flight_arms(
    a: Engine,
    b: Engine,
    h: ConnHandle,
    entry: RetransEntry,
    frame_len: int,
    now_ns: u64,
)
    requires
        a.has(h),
        now_ns <= LATEST_NS,
        put_on_flight(a, b, h, entry, frame_len, now_ns),
    ensures
        b.has(h),
        b.conn(h).snd_retrans@ == a.conn(h).snd_retrans@.push(entry),
        b.tx_pending_data@ == a.tx_pending_data@.push(entry.mbuf),
        b.conn(h).rtt_est == a.conn(h).rtt_est,
        b.conn(h).snd_nxt == a.conn(h).snd_nxt,
        b.conn(h).snd_una == a.conn(h).snd_una,
        ({
            let c = a.conn(h);
            if c.snd_retrans@.len() == 0 && c.rto_timer_id is None && c.rtt_est.rto > 0 {
                due_in(
                    b,
                    b.conn(h).rto_timer_id,
                    h,
                    TimerKind::Rto,
                    now_ns,
                    1_000 * c.rtt_est.rto,
                )
            } else {
                b.timer_wheel == a.timer_wheel && b.conn(h).rto_timer_id == c.rto_timer_id
            }
        }),
{
}

/// An acknowledgement lets go of the segments that end at or before it, from
/// the oldest on, and of no other. Where some are left the retransmission timer
/// starts over, for the whole timeout; where nothing is left neither that nor
/// the probe timer is pending any more.
pub proof fn law_ack_frees_and_rearms(
    a: Engine,
    b: Engine,
    h: ConnHandle,
    una: u32,
    now_ns: u64,
    freed: Seq<Mbuf>,
)
    requires
        a.has(h),
        now_ns <= LATEST_NS,
        ack_settled(a, b, h, una, now_ns, freed),
    ensures
        ({
            let old_flight = a.conn(h).snd_retrans@;
            let flight = b.conn(h).snd_retrans@;
            let n = freed.len();
            &&& n <= old_flight.len()
            &&& flight == old_flight.subrange(n as int, old_flight.len() as int)
            &&& forall|i: int| 0 <= i < n ==> #[trigger] freed[i] == old_flight[i].mbuf
            &&& forall|i: int|
                0 <= i < n ==> una.wrapping_sub(
                    (#[trigger] old_flight[i]).seq.wrapping_add(old_flight[i].len as u32),
                ) < 0x8000_0000
            &&& n < old_flight.len() ==> una.wrapping_sub(
                old_flight[n as int].seq.wrapping_add(old_flight[n as int].len as u32),
            ) >= 0x8000_0000
            &&& flight.len() > 0 && a.conn(h).rto_timer_id is Some && a.conn(h).rtt_est.rto > 0
                ==> due_in(
                b,
                b.conn(h).rto_timer_id,
                h,
                TimerKind::Rto,
                now_ns,
                1_000 * a.conn(h).rtt_est.rto,
            )
            &&& flight.len() == 0 && a.conn(h).snd_una == a.conn(h).snd_nxt ==> {
                &&& b.conn(h).rto_timer_id is None
                &&& b.conn(h).tlp_timer_id is None
                &&& a.conn(h).rto_timer_id matches Some(id) ==> !b.timer_wheel@.contains_key(id)
                &&& a.conn(h).tlp_timer_id matches Some(id) ==> !b.timer_wheel@.contains_key(id)
            }
            &&& b.conn(h).snd_una == a.conn(h).snd_una
            &&& b.conn(h).snd_nxt == a.conn(h).snd_nxt
            &&& b.conn(h).rtt_est == a.conn(h).rtt_est
        }),
{
    let s = a.conn(h).snd_retrans@;
    crate::tcp_retrans::lemma_acked_prefix_bound(s, una);
    crate::tcp_retrans::law_prune_only_acked(s, una);
}

/// A probe is armed exactly where something is in flight, none is pending, the
/// budget is not used up, a round-trip time was sampled since the last one (or
/// that is waived) and one is known at all; it is due after the given time.
pub proof fn law_probe_is_due(a: Engine, b: Engine, h: ConnHandle, pto_us: u32, now_ns: u64)
    requires
        now_ns <= LATEST_NS,
        probe_armed(a, b, h, pto_us, now_ns),
    ensures
        ({
            let c = a.conn(h);
            let may = {
                &&& a.has(h)
                &&& c.snd_retrans@.len() > 0
                &&& c.tlp_timer_id is None
                &&& c.tlp_consecutive_probes_fired < c.tlp_max_consecutive_probes
                &&& c.tlp_skip_rtt_sample_gate || c.tlp_rtt_sample_seen_since_last_tlp
                &&& c.rtt_est.srtt is Some
            };
            if may {
                &&& due_in(
                    b,
                    b.conn(h).tlp_timer_id,
                    h,
                    TimerKind::Tlp,
                    now_ns,
                    1_000 * pto_us,
                )
                &&& b.conn(h).timer_ids@.contains(b.conn(h).tlp_timer_id->0)
            } else {
                b == a
            }
        }),
{
    let c = a.conn(h);
    if a.has(h) && c.may_arm_tlp() {
        let d = b.conn(h);
        assert(d.timer_ids@[c.timer_ids@.len() as int] == d.tlp_timer_id->0);
    }
}

/// A retransmission timer that fires concerns a connection only while it is
/// the connection's current one; it asks for a retransmission exactly where
/// something is in flight, and is not pending afterwards.
pub proof fn law_timeout_is_current(a: Engine, b: Engine, h: ConnHandle, id: TimerId, r: RtoStep)
    requires
        rto_fired(a, b, h, id, r),
    ensures
        !a.has(h) || a.conn(h).rto_timer_id != Some(id) ==> r == RtoStep::Stale && b == a,
        a.has(h) && a.conn(h).rto_timer_id == Some(id) ==> {
            &&& r == RtoStep::Retransmit <==> a.conn(h).snd_retrans@.len() > 0
            &&& r == RtoStep::Idle <==> a.conn(h).snd_retrans@.len() == 0
            &&& b.conn(h).rto_timer_id is None
            &&& !b.conn(h).timer_ids@.contains(id)
            &&& b.conn(h).snd_retrans@ == a.conn(h).snd_retrans@
            &&& b.conn(h).rtt_est == a.conn(h).rtt_est
        },
{
    crate::engine::lemma_without_id(a.conn(h).timer_ids@, id);
}

/// A probe timer that fires sends the newest segment in flight again; one that
/// is not the connection's current one changes nothing.
pub proof fn law_probe_is_newest(
    a: Engine,
    b: Engine,
    h: ConnHandle,
    id: TimerId,
    r: Option<usize>,
)
    requires
        tlp_fired(a, b, h, id, r),
        a.conn(h).snd_retrans@.len() <= usize::MAX,
    ensures
        r is Some <==> a.has(h) && a.conn(h).tlp_timer_id == Some(id)
            && a.conn(h).snd_retrans@.len() > 0,
        r matches Some(i) ==> i + 1 == a.conn(h).snd_retrans@.len(),
        !a.has(h) || a.conn(h).tlp_timer_id != Some(id) ==> b == a,
        a.has(h) && a.conn(h).tlp_timer_id == Some(id) ==> b.conn(h).tlp_timer_id is None
            && b.conn(h).rto_timer_id == a.conn(h).rto_timer_id,
{
}

/// Once the SYN was sent the connection waits for its answer, one number on,
/// and for the longer of the initial and the least timeout.
pub proof fn law_syn_awaits_answer(a: Engine, b: Engine, h: ConnHandle, syn_ns: u64, now_ns: u64)
    requires
        a.has(h),
        now_ns <= LATEST_NS,
        handshake_sent(a, b, h, syn_ns, now_ns),
    ensures
        ({
            let c = a.conn(h);
            let d = b.conn(h);
            let wait_us: u32 = if a.cfg.tcp_initial_rto_us >= a.cfg.tcp_min_rto_us {
                a.cfg.tcp_initial_rto_us
            } else {
                a.cfg.tcp_min_rto_us
            };
            &&& d.state == TcpState::SynSent
            &&& d.snd_nxt == c.iss.wrapping_add(1)
            &&& d.snd_una == c.snd_una
            &&& d.iss == c.iss
            &&& d.four_tuple == c.four_tuple
            &&& c.syn_retrans_count == 0 ==> d.syn_tx_ts_ns == syn_ns
            &&& due_in(
                b,
                d.syn_retrans_timer_id,
                h,
                TimerKind::SynRetrans,
                now_ns,
                1_000 * wait_us,
            )
        }),
        b.counters.tcp.tx_syn == a.counters.tcp.tx_syn.wrapping_add(1),
{
}

/// The first answer to a peer's SYN is awaited for the longer of the initial
/// and the least timeout; a repeated one is counted as a retransmission and
/// leaves the timer running.
pub proof fn law_syn_ack_awaits_answer(a: Engine, b: Engine, h: ConnHandle, now_ns: u64)
    requires
        a.has(h),
        now_ns <= LATEST_NS,
        syn_ack_recorded(a, b, h, now_ns),
    ensures
        ({
            let wait_us: u32 = if a.cfg.tcp_initial_rto_us >= a.cfg.tcp_min_rto_us {
                a.cfg.tcp_initial_rto_us
            } else {
                a.cfg.tcp_min_rto_us
            };
            if a.conn(h).syn_retrans_timer_id is None {
                &&& due_in(
                    b,
                    b.conn(h).syn_retrans_timer_id,
                    h,
                    TimerKind::SynRetrans,
                    now_ns,
                    1_000 * wait_us,
                )
                &&& b.counters.tcp.tx_syn == a.counters.tcp.tx_syn.wrapping_add(1)
                &&& b.counters.tcp.tx_retrans == a.counters.tcp.tx_retrans
            } else {
                &&& b.timer_wheel == a.timer_wheel
                &&& b.flow_table == a.flow_table
                &&& b.counters.tcp.tx_retrans == a.counters.tcp.tx_retrans.wrapping_add(1)
                &&& b.counters.tcp.tx_syn == a.counters.tcp.tx_syn
            }
        }),
{
}

/// The answer to a handshake segment that was sent again is awaited twice as
/// long as before, up to what a 32-bit number of microseconds holds.
pub proof fn law_handshake_waits_double(
    a: Engine,
    b: Engine,
    h: ConnHandle,
    sent: bool,
    now_ns: u64,
)
    requires
        a.has(h),
        now_ns <= LATEST_NS,
        syn_resent(a, b, h, sent, now_ns),
        1 <= a.conn(h).syn_retrans_count <= 3,
    ensures
        ({
            let base: u32 = if a.cfg.tcp_initial_rto_us >= a.cfg.tcp_min_rto_us {
                a.cfg.tcp_initial_rto_us
            } else {
                a.cfg.tcp_min_rto_us
            };
            let n = a.conn(h).syn_retrans_count;
            let times: int = if n == 1 {
                2
            } else if n == 2 {
                4
            } else {
                8
            };
            let wait_us: int = if times * base <= u32::MAX {
                times * base
            } else {
                u32::MAX as int
            };
            due_in(
                b,
                b.conn(h).syn_retrans_timer_id,
                h,
                TimerKind::SynRetrans,
                now_ns,
                1_000 * wait_us,
            )
        }),
        b.counters.tcp.tx_retrans == (if sent && a.conn(h).is_passive_open {
            a.counters.tcp.tx_retrans.wrapping_add(1)
        } else {
            a.counters.tcp.tx_retrans
        }),
{
    vstd::arithmetic::power2::lemma2_to64();
    let n = a.conn(h).syn_retrans_count;
    let base = crate::engine_listen::handshake_delay_us(
        a.cfg.tcp_initial_rto_us,
        a.cfg.tcp_min_rto_us,
    );
    let p = vstd::arithmetic::power2::pow2(crate::num::min_int(n as int, 6) as nat) as int;
    assert(p == (if n == 1 {
        2int
    } else if n == 2 {
        4
    } else {
        8
    }));
    assert(base * p == p * base) by (nonlinear_arith);
    assert(n == 1 ==> p * base == 2 * base);
    assert(n == 2 ==> p * base == 4 * base);
    assert(n == 3 ==> p * base == 8 * base);
}

/// A handshake segment is sent again three times; at the fourth firing the
/// connection is given up. We repeat a SYN, and a SYN-ACK where the peer opened
/// the connection. A timer that is not the current one, or that fires once the
/// handshake is over, asks for nothing.
pub proof fn law_handshake_retries(
    a: Engine,
    b: Engine,
    h: ConnHandle,
    id: TimerId,
    now_ns: u64,
    r: SynStep,
)
    requires
        syn_fired(a, b, h, id, now_ns, r),
    ensures
        ({
            let c = a.conn(h);
            let current = a.has(h) && c.syn_retrans_timer_id == Some(id) && (c.state
                == TcpState::SynSent || c.state == TcpState::SynReceived);
            &&& r is Nothing <==> !current
            &&& r is Resend <==> current && c.syn_retrans_count < 3
            &&& r is GaveUp <==> current && c.syn_retrans_count >= 3
            &&& r matches SynStep::Resend { flags } ==> {
                &&& flags == (if c.is_passive_open {
                    0x12u8
                } else {
                    0x02u8
                })
                &&& b.conn(h).syn_retrans_count == c.syn_retrans_count + 1
                &&& b.conn(h).syn_retrans_timer_id is None
                &&& b.conn(h).state == c.state
                &&& b.conn(h).iss == c.iss
            }
            &&& r is GaveUp ==> {
                &&& !b.has(h)
                &&& b.counters.tcp.conn_timeout_syn_sent
                    == a.counters.tcp.conn_timeout_syn_sent.wrapping_add(1)
                &&& b.counters.tcp.conn_close == a.counters.tcp.conn_close.wrapping_add(1)
            }
            &&& !a.has(h) || c.syn_retrans_timer_id != Some(id) ==> b == a
        }),
{
}

} // verus!
