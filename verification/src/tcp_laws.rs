//! What the parts of a connection do: estimates of the round-trip time, probes,
//! queues, sequence numbers and windows.
use vstd::prelude::*;

use crate::counters::TcpCounters;
use crate::engine_config::{
    build_ack_outcome, compute_ws_shift_for, pack_timer_id, select_source_ip, unpack_timer_id,
    AckOutcome,
};
use crate::error::Error;
use crate::rtt_histogram::RttHistogram;
use crate::tcp_conn::{ConnStats, RecentProbe, SendQueue, TcpConn};
use crate::tcp_input::{apply_tcp_input_counters, Outcome};
use crate::tcp_rack::RackState;
use crate::tcp_rtt::RttEstimator;
use crate::tcp_seq::{seq_le, seq_lt};
use crate::tcp_state::{state_from_byte, TcpState};
use crate::tcp_timer_wheel::TimerId;
use crate::tcp_tlp::{select_probe, Probe, TlpConfig};

verus! {

/// The first sample of the round-trip time is taken over, with half of it as
/// the variation. A further one moves the estimate an eighth of the way to the
/// sample, and the variation a quarter of the way to the distance between the
/// two. The timeout is the estimate and four times the variation, within its
/// bounds.
pub proof fn law_round_trip_estimate(e: &mut RttEstimator, rtt_us: u32)
    requires
        call_ensures(RttEstimator::sample, (e, rtt_us), ()),
        old(e).min_rto <= old(e).max_rto,
    ensures
        final(e).srtt is Some,
        old(e).srtt is None ==> final(e).srtt == Some(rtt_us) && final(e).rttvar == rtt_us / 2,
        old(e).srtt matches Some(s) ==> {
            let n = final(e).srtt->0;
            let far: int = if s >= rtt_us {
                s - rtt_us
            } else {
                rtt_us - s
            };
            &&& 8 * n <= 7 * s + rtt_us < 8 * n + 8
            &&& 4 * final(e).rttvar <= 3 * old(e).rttvar + far < 4 * final(e).rttvar + 4
        },
        ({
            let want = final(e).srtt->0 + 4 * final(e).rttvar;
            &&& old(e).min_rto <= want <= old(e).max_rto ==> final(e).rto == want
            &&& want < old(e).min_rto ==> final(e).rto == old(e).min_rto
            &&& want > old(e).max_rto ==> final(e).rto == old(e).max_rto
        }),
        final(e).min_rto == old(e).min_rto,
        final(e).max_rto == old(e).max_rto,
{
}

/// Backing off doubles the timeout, up to its maximum, and changes nothing
/// else.
pub proof fn law_back_off(e: &mut RttEstimator)
    requires
        call_ensures(RttEstimator::apply_backoff, (e,), ()),
    ensures
        2 * old(e).rto <= old(e).max_rto ==> final(e).rto == 2 * old(e).rto,
        2 * old(e).rto > old(e).max_rto ==> final(e).rto == old(e).max_rto,
        final(e).srtt == old(e).srtt,
        final(e).rttvar == old(e).rttvar,
        final(e).max_rto == old(e).max_rto,
        final(e).min_rto == old(e).min_rto,
{
}

/// The least round-trip time only ever falls once there is one; zero stands for
/// none.
pub proof fn law_least_round_trip(s: &mut RackState, rtt_us: u32)
    requires
        call_ensures(RackState::update_min_rtt, (s, rtt_us), ()),
    ensures
        final(s).min_rtt_us <= rtt_us,
        old(s).min_rtt_us > 0 ==> final(s).min_rtt_us <= old(s).min_rtt_us,
        final(s).min_rtt_us == rtt_us || final(s).min_rtt_us == old(s).min_rtt_us,
        old(s).min_rtt_us == 0 ==> final(s).min_rtt_us == rtt_us,
        final(s).reo_wnd_us == old(s).reo_wnd_us,
{
}

/// A sample is counted in one bucket and in no other: the first whose edge is
/// not below it, or the last.
pub proof fn law_sample_counted_once(
    h: &mut RttHistogram,
    rtt_us: u32,
    edges: [u32; 15],
    b: int,
)
    requires
        call_ensures(RttHistogram::update, (h, rtt_us, &edges), ()),
        0 <= b < 16,
        forall|i: int| 0 <= i < b ==> #[trigger] edges[i] < rtt_us,
        b < 15 ==> rtt_us <= edges[b],
    ensures
        final(h).buckets[b] == old(h).buckets[b].wrapping_add(1),
        forall|k: int| 0 <= k < 16 && k != b ==> #[trigger] final(h).buckets[k]
            == old(h).buckets[k],
{
    assert(crate::rtt_histogram::is_bucket_of(rtt_us, edges, b));
    assert forall|k: int| 0 <= k < 16 && k != b implies #[trigger] final(h).buckets[k]
        == old(h).buckets[k] by {
        if crate::rtt_histogram::is_bucket_of(rtt_us, edges, k) {
            crate::rtt_histogram::law_bucket_unique(rtt_us, edges, b, k);
        }
    }
}

/// The handshake gives the first sample only where the SYN was sent just once
/// and the time between it and its answer, in microseconds, is plausible.
pub proof fn law_handshake_sample(
    c: &mut TcpConn,
    now_ns: u64,
    edges: [u32; 15],
    r: bool,
)
    requires
        call_ensures(TcpConn::maybe_seed_srtt_from_syn, (c, now_ns, &edges), r),
        old(c).syn_tx_ts_ns <= now_ns,
        now_ns / 1_000 <= u32::MAX,
    ensures
        ({
            let rtt = now_ns / 1_000 - old(c).syn_tx_ts_ns / 1_000;
            &&& r <==> old(c).syn_retrans_count == 0 && old(c).syn_tx_ts_ns > 0 && 1 <= rtt
                < 60_000_000
            &&& r && old(c).rtt_est.srtt is None ==> final(c).rtt_est.srtt == Some(rtt as u32)
            &&& r ==> final(c).rack.min_rtt_us <= rtt
            &&& !r ==> *final(c) == *old(c)
            &&& final(c).state == old(c).state
            &&& final(c).snd_nxt == old(c).snd_nxt
        }),
{
}

/// A probe that was sent is remembered in the next place of the ring, which
/// goes round five places; it uses up one of the budget, and a new sample is
/// needed before the next.
pub proof fn law_probe_remembered(c: &mut TcpConn, seq: u32, len: u16, tx_ns: u64)
    requires
        old(c).wf(),
        call_ensures(TcpConn::on_tlp_probe_fired, (c, seq, len, tx_ns), ()),
    ensures
        ({
            let at = old(c).tlp_recent_probes_next_slot;
            &&& final(c).tlp_recent_probes[at as int] == Some(
                RecentProbe { seq, len, tx_ts_ns: tx_ns, attributed: false },
            )
            &&& forall|i: int|
                0 <= i < 5 && i != at ==> #[trigger] final(c).tlp_recent_probes[i]
                    == old(c).tlp_recent_probes[i]
            &&& at < 4 ==> final(c).tlp_recent_probes_next_slot == at + 1
            &&& at == 4 ==> final(c).tlp_recent_probes_next_slot == 0
            &&& old(c).tlp_consecutive_probes_fired < 255 ==> final(c).tlp_consecutive_probes_fired
                == old(c).tlp_consecutive_probes_fired + 1
            &&& !final(c).tlp_rtt_sample_seen_since_last_tlp
        }),
{
    let at = old(c).tlp_recent_probes_next_slot as int;
    assert forall|i: int| 0 <= i < 5 && i != at implies #[trigger] final(c).tlp_recent_probes[i]
        == old(c).tlp_recent_probes[i] by {
        assert(final(c).tlp_recent_probes@[i] == old(c).tlp_recent_probes@[i]);
    }
    assert(final(c).tlp_recent_probes@[at] == final(c).tlp_recent_probes[at]);
}

/// A sample renews the budget of probes and allows the next; newly acknowledged
/// data renews the budget only.
pub proof fn law_probe_budget_renewed(c: &mut TcpConn, d: &mut TcpConn)
    requires
        call_ensures(TcpConn::on_rtt_sample_tlp_hook, (c,), ()),
        call_ensures(TcpConn::on_new_data_ack_tlp_hook, (d,), ()),
    ensures
        final(c).tlp_consecutive_probes_fired == 0,
        final(c).tlp_rtt_sample_seen_since_last_tlp,
        final(d).tlp_consecutive_probes_fired == 0,
        final(d).tlp_rtt_sample_seen_since_last_tlp == old(d).tlp_rtt_sample_seen_since_last_tlp,
        final(c).tlp_max_consecutive_probes == old(c).tlp_max_consecutive_probes,
{
}

/// A duplicate report is taken as spurious where a probe that it covers was
/// sent less than four round-trip times ago (a second, where none is known) and
/// was not taken as such before. Just one probe is marked by it.
pub proof fn law_spurious_probe(c: &mut TcpConn, left: u32, right: u32, now_ns: u64, r: bool)
    requires
        call_ensures(TcpConn::attribute_dsack_to_recent_tlp_probe, (c, left, right, now_ns), r),
    ensures
        ({
            let srtt: u32 = match old(c).rtt_est.srtt {
                Some(s) => s,
                None => old(c).rack.min_rtt_us,
            };
            let window_ns: int = if srtt == 0 {
                1_000_000_000
            } else {
                4 * srtt * 1_000
            };
            let covered = |p: RecentProbe|
                {
                    &&& !p.attributed
                    &&& p.seq.wrapping_sub(left) < 0x8000_0000
                    &&& right.wrapping_sub(p.seq.wrapping_add(p.len as u32)) < 0x8000_0000
                    &&& now_ns - p.tx_ts_ns < window_ns
                };
            &&& r <==> exists|i: int|
                0 <= i < 5 && (#[trigger] old(c).tlp_recent_probes[i]) is Some && covered(
                    old(c).tlp_recent_probes[i]->0,
                )
            &&& r ==> exists|i: int|
                {
                    &&& 0 <= i < 5
                    &&& (#[trigger] old(c).tlp_recent_probes[i]) is Some
                    &&& covered(old(c).tlp_recent_probes[i]->0)
                    &&& final(c).tlp_recent_probes[i] is Some
                    &&& final(c).tlp_recent_probes[i]->0.attributed
                    &&& forall|k: int|
                        0 <= k < 5 && k != i ==> #[trigger] final(c).tlp_recent_probes[k]
                            == old(c).tlp_recent_probes[k]
                }
            &&& !r ==> *final(c) == *old(c)
        }),
{
    let srtt: u32 = match old(c).rtt_est.srtt {
        Some(s) => s,
        None => old(c).rack.min_rtt_us,
    };
    let window_ns: int = if srtt == 0 {
        1_000_000_000
    } else {
        4 * srtt * 1_000
    };
    let covered = |p: RecentProbe|
        {
            &&& !p.attributed
            &&& p.seq.wrapping_sub(left) < 0x8000_0000
            &&& right.wrapping_sub(p.seq.wrapping_add(p.len as u32)) < 0x8000_0000
            &&& now_ns - p.tx_ts_ns < window_ns
        };
    if r {
        let i = choose|i: int|
            {
                &&& 0 <= i < 5
                &&& #[trigger] old(c).slot_explained(i, left, right, now_ns)
                &&& final(c).tlp_recent_probes@ == old(c).tlp_recent_probes@.update(
                    i,
                    Some(RecentProbe { attributed: true, ..old(c).tlp_recent_probes[i]->0 }),
                )
            };
        assert(old(c).tlp_recent_probes[i] is Some);
        assert(final(c).tlp_recent_probes[i] == final(c).tlp_recent_probes@[i]);
        assert forall|k: int| 0 <= k < 5 && k != i implies #[trigger] final(c).tlp_recent_probes[k]
            == old(c).tlp_recent_probes[k] by {
            assert(final(c).tlp_recent_probes@[k] == old(c).tlp_recent_probes@[k]);
        }
    } else {
        assert forall|i: int| 0 <= i < 5 implies !((#[trigger] old(c).tlp_recent_probes[i]) is Some
            && covered(old(c).tlp_recent_probes[i]->0)) by {
            assert(!old(c).slot_explained(i, left, right, now_ns));
        }
    }
}

/// Our FIN is acknowledged exactly by a number behind it.
pub proof fn law_fin_acknowledged(c: TcpConn, ack: u32, r: bool)
    requires
        call_ensures(TcpConn::fin_has_been_acked, (&c, ack), r),
    ensures
        c.our_fin_seq is None ==> !r,
        c.our_fin_seq matches Some(s) ==> {
            &&& ack == s.wrapping_add(1) ==> r
            &&& ack == s ==> !r
            &&& ack.wrapping_sub(s.wrapping_add(1)) < 0x8000_0000 ==> r
            &&& ack.wrapping_sub(s.wrapping_add(1)) > 0x8000_0000 ==> !r
        },
{
}

/// A queue takes the first bytes that it is offered, as many as there is room
/// for, behind those that it has.
pub proof fn law_send_queue_takes(q: &mut SendQueue, bytes: &[u8], r: u32)
    requires
        old(q).pending@.len() <= old(q).cap,
        call_ensures(SendQueue::push, (q, bytes), r),
    ensures
        final(q).pending@ == old(q).pending@ + bytes@.take(r as int),
        r <= bytes@.len(),
        final(q).pending@.len() <= final(q).cap,
        r < bytes@.len() ==> final(q).pending@.len() == final(q).cap,
        final(q).cap == old(q).cap,
{
}

/// What is told of a connection is where it stands, what waits in its queue and
/// what is left of its buffer, and its estimates; zero stands for no estimate.
pub proof fn law_statistics(c: TcpConn, buffer: u32, r: ConnStats)
    requires
        call_ensures(TcpConn::stats, (&c, buffer), r),
        c.snd.pending@.len() <= u32::MAX,
    ensures
        r.snd_una == c.snd_una,
        r.snd_nxt == c.snd_nxt,
        r.snd_wnd == c.snd_wnd,
        r.send_buf_bytes_pending == c.snd.pending@.len(),
        c.snd.pending@.len() <= buffer ==> r.send_buf_bytes_pending + r.send_buf_bytes_free
            == buffer,
        c.snd.pending@.len() > buffer ==> r.send_buf_bytes_free == 0,
        c.rtt_est.srtt matches Some(s) ==> r.srtt_us == s,
        c.rtt_est.srtt is None ==> r.srtt_us == 0,
        r.rttvar_us == c.rtt_est.rttvar,
        r.min_rtt_us == c.rack.min_rtt_us,
        r.rto_us == c.rtt_est.rto,
{
}

/// The settings of a connection's probes; the largest floor stands for none.
pub proof fn law_probe_settings(c: TcpConn, min_rto_us: u32, r: TlpConfig)
    requires
        call_ensures(TcpConn::tlp_config, (&c, min_rto_us), r),
    ensures
        c.tlp_pto_min_floor_us < u32::MAX ==> r.floor_us == c.tlp_pto_min_floor_us,
        c.tlp_pto_min_floor_us == u32::MAX ==> r.floor_us == 0,
        r.multiplier_x100 == c.tlp_pto_srtt_multiplier_x100,
        r.skip_flight_size_gate == c.tlp_skip_flight_size_gate,
{
}

/// A probe needs something in flight; it is new data where some waits.
pub proof fn law_probe_choice(pending: bool, in_flight: bool, r: Option<Probe>)
    requires
        call_ensures(select_probe, (pending, in_flight), r),
    ensures
        r is Some <==> in_flight,
        in_flight && pending ==> r == Some(Probe::NewData),
        in_flight && !pending ==> r == Some(Probe::LastSegmentRetransmit),
{
}

/// One number precedes another where it is less than half the circle behind it.
pub proof fn law_numbers_compare(a: u32, b: u32, lt: bool, le: bool)
    requires
        call_ensures(seq_lt, (a, b), lt),
        call_ensures(seq_le, (a, b), le),
    ensures
        lt <==> 0 < b.wrapping_sub(a) < 0x8000_0000,
        le <==> b.wrapping_sub(a) < 0x8000_0000,
{
}

/// The scale is the least with which the field tells of the whole buffer, and
/// at most fourteen.
pub proof fn law_window_scale(bytes: u32, r: u8, k: u8)
    requires
        call_ensures(compute_ws_shift_for, (bytes,), r),
        k < 14,
    ensures
        r <= 14,
        ({
            let most = 65_535 * vstd::arithmetic::power2::pow2(k as nat);
            &&& k >= r ==> most >= bytes
            &&& k < r ==> most < bytes
        }),
{
    if k >= r {
        if k > r {
            vstd::arithmetic::power2::lemma_pow2_strictly_increases(r as nat, k as nat);
        }
        assert(crate::engine_config::window_cap(r as int) >= bytes);
        let x = vstd::arithmetic::power2::pow2(r as nat) as int;
        let y = vstd::arithmetic::power2::pow2(k as nat) as int;
        assert(65_535 * x <= 65_535 * y);
    } else {
        assert(crate::engine_config::window_cap(k as int) < bytes);
    }
}

/// A connection may be opened from the primary address, which is also the
/// default, and from the further ones; from no other.
pub proof fn law_source_address(
    requested: u32,
    local_ip: u32,
    others: &[u32],
    r: Result<u32, Error>,
)
    requires
        call_ensures(select_source_ip, (requested, local_ip, others), r),
    ensures
        requested == 0 ==> r == Ok::<u32, Error>(local_ip),
        requested != 0 && (requested == local_ip || exists|i: int|
            0 <= i < others@.len() && #[trigger] others@[i] == requested) ==> r == Ok::<u32, Error>(
            requested,
        ),
        requested != 0 && requested != local_ip && (forall|i: int|
            0 <= i < others@.len() ==> #[trigger] others@[i] != requested) ==> r == Err::<
            u32,
            Error,
        >(Error::InvalidLocalAddr(requested)),
{
}

/// Packing keeps the slot in the upper half and the generation in the lower,
/// and unpacking gives both back.
pub proof fn law_timer_numbers(id: TimerId, packed: u64, back: TimerId)
    requires
        call_ensures(pack_timer_id, (id,), packed),
        call_ensures(unpack_timer_id, (packed,), back),
    ensures
        packed / 0x1_0000_0000 == id.slot,
        packed % 0x1_0000_0000 == id.generation,
        back == id,
{
    crate::engine_config::law_packed_ids_differ(id, back);
}

/// States are numbered from CLOSED on in the order of a connection's life, and
/// a byte names a state round those eleven.
pub proof fn law_state_numbers(s: TcpState, n: usize, b: u8, t: TcpState)
    requires
        call_ensures(TcpState::index, (s,), n),
        call_ensures(state_from_byte, (b,), t),
    ensures
        n < 11,
        s == TcpState::Closed <==> n == 0,
        s == TcpState::Listen <==> n == 1,
        s == TcpState::SynSent <==> n == 2,
        s == TcpState::SynReceived <==> n == 3,
        s == TcpState::Established <==> n == 4,
        s == TcpState::FinWait1 <==> n == 5,
        s == TcpState::FinWait2 <==> n == 6,
        s == TcpState::CloseWait <==> n == 7,
        s == TcpState::Closing <==> n == 8,
        s == TcpState::LastAck <==> n == 9,
        s == TcpState::TimeWait <==> n == 10,
        b as int % 11 == n ==> t == s,
{
}

/// A move from one state to another adds one to the cell of the two states, and
/// to no other.
pub proof fn law_moves_counted(
    c: &mut TcpCounters,
    from: TcpState,
    to: TcpState,
    i: usize,
    j: usize,
    k: int,
    l: int,
)
    requires
        call_ensures(TcpCounters::count_transition, (c, from, to), ()),
        call_ensures(TcpState::index, (from,), i),
        call_ensures(TcpState::index, (to,), j),
        0 <= k < 11,
        0 <= l < 11,
    ensures
        k == i && l == j ==> final(c).state_trans[k][l] == old(c).state_trans[k][l].wrapping_add(1),
        !(k == i && l == j) ==> final(c).state_trans[k][l] == old(c).state_trans[k][l],
        final(c).tx_retrans == old(c).tx_retrans,
        final(c).conn_open == old(c).conn_open,
{
}

/// Every part of what a segment led to is counted under its own counter, and
/// nothing else is: flags by one, quantities by their amount.
pub proof fn law_outcome_counted(o: Outcome, c: &mut TcpCounters)
    requires
        call_ensures(apply_tcp_input_counters, (&o, c), ()),
    ensures
        final(c).rx_paws_rejected == old(c).rx_paws_rejected.wrapping_add(once(o.paws_rejected)),
        final(c).ts_recent_expired == old(c).ts_recent_expired.wrapping_add(
            once(o.ts_recent_expired),
        ),
        final(c).rx_bad_option == old(c).rx_bad_option.wrapping_add(once(o.bad_option)),
        final(c).rx_reassembly_queued == old(c).rx_reassembly_queued.wrapping_add(
            once(o.reassembly_queued_bytes > 0),
        ),
        final(c).rx_reassembly_hole_filled == old(c).rx_reassembly_hole_filled.wrapping_add(
            o.reassembly_hole_filled as u64,
        ),
        final(c).rx_sack_blocks == old(c).rx_sack_blocks.wrapping_add(
            o.sack_blocks_decoded as u64,
        ),
        final(c).rx_dsack == old(c).rx_dsack.wrapping_add(o.rx_dsack_count as u64),
        final(c).tx_tlp_spurious == old(c).tx_tlp_spurious.wrapping_add(
            o.tx_tlp_spurious_count as u64,
        ),
        final(c).rx_bad_seq == old(c).rx_bad_seq.wrapping_add(once(o.bad_seq)),
        final(c).rx_bad_ack == old(c).rx_bad_ack.wrapping_add(once(o.bad_ack)),
        final(c).rx_dup_ack == old(c).rx_dup_ack.wrapping_add(once(o.dup_ack)),
        final(c).rx_urgent_dropped == old(c).rx_urgent_dropped.wrapping_add(
            once(o.urgent_dropped),
        ),
        final(c).rx_zero_window == old(c).rx_zero_window.wrapping_add(once(o.rx_zero_window)),
        final(c).rx_ws_shift_clamped == old(c).rx_ws_shift_clamped.wrapping_add(
            once(o.ws_shift_clamped),
        ),
        final(c).rtt_samples == old(c).rtt_samples.wrapping_add(once(o.rtt_sample_taken)),
        final(c).conn_close == old(c).conn_close,
        final(c).conn_open == old(c).conn_open,
        final(c).tx_ack == old(c).tx_ack,
        final(c).tx_retrans == old(c).tx_retrans,
{
}

/// One where something happened.
pub open spec fn once(happened: bool) -> u64 {
    if happened {
        1
    } else {
        0
    }
}

/// What an ACK reports first is the range that it answers, where that is still
/// held; no range is reported twice in a row, and the window that it tells is
/// zero only where the space left is less than a unit.
pub proof fn law_ack_reports(
    shift: u8,
    ts: bool,
    ts_recent: u32,
    now_us: u32,
    sack: bool,
    held: &[(u32, u32)],
    trigger: Option<(u32, u32)>,
    free: u32,
    r: AckOutcome,
    k: int,
)
    requires
        shift < 32,
        call_ensures(
            build_ack_outcome,
            (shift, ts, ts_recent, now_us, sack, held, trigger, free),
            r,
        ),
        0 <= k < held@.len(),
        trigger is Some,
        held@[k].0.wrapping_sub((trigger->0).0) > 0x8000_0000 || held@[k].0 == (trigger->0).0,
        0 < held@[k].1.wrapping_sub((trigger->0).0) < 0x8000_0000,
        forall|j: int|
            0 <= j < k ==> !(((#[trigger] held@[j]).0.wrapping_sub((trigger->0).0) > 0x8000_0000
                || held@[j].0 == (trigger->0).0) && 0 < held@[j].1.wrapping_sub((trigger->0).0)
                < 0x8000_0000),
    ensures
        sack ==> r.opts.sack_block_count > 0 && r.opts.sack_blocks[0].left == held@[k].0
            && r.opts.sack_blocks[0].right == held@[k].1,
        !sack ==> r.opts.sack_block_count == 0,
        r.zero_window <==> free == 0,
        ts ==> r.opts.timestamps == Some((now_us, ts_recent)),
        !ts ==> r.opts.timestamps is None,
{
    let t = (trigger->0).0;
    if sack {
        let idx = choose|idx: int| #[trigger]
            crate::engine_config::is_trigger_index(held@, trigger, idx) && r.opts.sacks()
                == crate::engine_config::sack_order(held@, idx);
        assert(crate::engine_config::range_holds(held@[k], t));
        if idx < k {
            assert(crate::engine_config::range_holds(held@[idx], t));
        }
        assert(idx == k);
        let first = seq![held@[k]] + held@.remove(k).reverse();
        assert(first.len() == held@.len());
        assert(crate::engine_config::sack_order(held@, idx)[0].left == held@[k].0);
        assert(r.opts.sacks()[0] == r.opts.sack_blocks[0]);
    }
}

/// Where an ACK answers no range that is still held, the newest range comes
/// first.
pub proof fn law_newest_range_first(
    shift: u8,
    ts: bool,
    ts_recent: u32,
    now_us: u32,
    held: &[(u32, u32)],
    free: u32,
    r: AckOutcome,
)
    requires
        shift < 32,
        call_ensures(
            build_ack_outcome,
            (shift, ts, ts_recent, now_us, true, held, None::<(u32, u32)>, free),
            r,
        ),
        held@.len() > 0,
    ensures
        r.opts.sack_block_count > 0,
        r.opts.sack_blocks[0].left == held@.last().0,
        r.opts.sack_blocks[0].right == held@.last().1,
        held@.len() <= 3 ==> r.opts.sack_block_count == held@.len(),
        held@.len() > 3 ==> r.opts.sack_block_count == 3,
        r.sack_blocks_emitted == r.opts.sack_block_count,
{
    let idx = choose|idx: int| #[trigger]
        crate::engine_config::is_trigger_index(held@, None, idx) && r.opts.sacks()
            == crate::engine_config::sack_order(held@, idx);
    assert(idx == held@.len());
    assert(held@.reverse()[0] == held@.last());
    assert(r.opts.sacks()[0] == r.opts.sack_blocks[0]);
}

} // verus!
