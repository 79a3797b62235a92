//! What the tables, the clock and the statistics of the driver keep to.
use vstd::prelude::*;

use crate::bench_alloc_audit::{sample_decision, AllocCounts};
use crate::clock::{check_invariant_tsc, init, now_ns, TscEpoch};
use crate::counters::{Counters, TcpCounters};
use crate::ena_xstats::{
    clamped_names_len, query_of, resolve_xstat_ids, scattered, scrape, xstat_query, XstatMap,
    XSTAT_NAMES,
};
use crate::error::Error;
use crate::flow_table::{ConnHandle, FlowTable};
use crate::mempool::{note_handle_drop, rx_pool_shape, Mbuf, PoolShape};
use crate::tcp_conn::TcpConn;
use crate::tcp_laws::once;
use crate::tcp_retrans::{acked_prefix, RetransEntry, SendRetrans};
use crate::tcp_timer_wheel::{TimerId, TimerNode, TimerWheel};

verus! {

/// A connection that is put into the table is found under the handle that was
/// given for it until it is taken out, and no other connection is touched. No
/// handle is zero, and none is beyond the limit.
pub proof fn law_table_keeps(
    t: &mut FlowTable,
    c: TcpConn,
    r: Option<ConnHandle>,
    u: &mut FlowTable,
    o: ConnHandle,
)
    requires
        old(t).wf(),
        c.wf(),
        call_ensures(FlowTable::insert, (t, c), r),
        r is Some,
        *old(u) == *final(t),
        call_ensures(FlowTable::remove, (u, r->0), ()),
    ensures
        1 <= r->0 <= old(t).max,
        final(t)@.contains_key(r->0) && final(t)@[r->0] == c,
        o != r->0 ==> (final(t)@.contains_key(o) <==> old(t)@.contains_key(o)),
        o != r->0 && old(t)@.contains_key(o) ==> final(t)@[o] == old(t)@[o],
        !old(t)@.contains_key(r->0),
        final(u)@ == old(t)@,
        final(u).max == old(t).max,
{
}

/// A table refuses a connection only where every handle is taken.
pub proof fn law_table_is_full(
    t: &mut FlowTable,
    c: TcpConn,
    r: Option<ConnHandle>,
    h: ConnHandle,
)
    requires
        old(t).wf(),
        c.wf(),
        call_ensures(FlowTable::insert, (t, c), r),
        1 <= h <= old(t).max,
    ensures
        !old(t)@.contains_key(h) ==> r is Some,
        r is None ==> *final(t) == *old(t),
{
}

/// What is acknowledged leaves from the front and is handed back in order; the
/// first segment with a byte that is not acknowledged stays, and all behind it.
pub proof fn law_acknowledged_leaves(q: &mut SendRetrans, una: u32, r: Vec<Mbuf>, i: int)
    requires
        call_ensures(SendRetrans::prune_below, (q, una), r),
    ensures
        final(q)@.len() + r@.len() == old(q)@.len(),
        0 <= i < r@.len() ==> r@[i] == old(q)@[i].mbuf,
        0 <= i < r@.len() ==> una.wrapping_sub(
            old(q)@[i].seq.wrapping_add(old(q)@[i].len as u32),
        ) < 0x8000_0000,
        0 <= i < final(q)@.len() ==> final(q)@[i] == old(q)@[i + r@.len()],
        final(q)@.len() > 0 ==> una.wrapping_sub(
            final(q)@[0].seq.wrapping_add(final(q)@[0].len as u32),
        ) >= 0x8000_0000,
{
    let s = old(q)@;
    crate::tcp_retrans::lemma_acked_prefix_bound(s, una);
    crate::tcp_retrans::law_prune_only_acked(s, una);
    let n = acked_prefix(s, una);
    assert(r@.len() == n);
    if 0 <= i < n {
        assert(crate::tcp_seq::precedes_or_is(s[i].end(), una));
    }
    if n < s.len() {
        assert(final(q)@[0] == s[n]);
    }
}

/// A segment that is put in flight comes last, and those in front of it stay.
pub proof fn law_flight_order(q: &mut SendRetrans, e: RetransEntry, i: int)
    requires
        call_ensures(SendRetrans::push_after_tx, (q, e), ()),
    ensures
        final(q)@.len() == old(q)@.len() + 1,
        final(q)@[old(q)@.len() as int] == e,
        0 <= i < old(q)@.len() ==> final(q)@[i] == old(q)@[i],
{
}

/// Marking what is lost marks just what was named, and changes nothing else of
/// any segment.
pub proof fn law_lost_marked(q: &mut SendRetrans, lost: &[u16], i: int)
    requires
        call_ensures(SendRetrans::mark_lost, (q, lost), ()),
        0 <= i < old(q)@.len(),
    ensures
        final(q)@.len() == old(q)@.len(),
        final(q)@[i].lost <==> old(q)@[i].lost || exists|k: int|
            0 <= k < lost@.len() && #[trigger] lost@[k] == i,
        final(q)@[i].seq == old(q)@[i].seq,
        final(q)@[i].len == old(q)@[i].len,
        final(q)@[i].mbuf == old(q)@[i].mbuf,
        final(q)@[i].xmit_count == old(q)@[i].xmit_count,
        final(q)@[i].xmit_ts_ns == old(q)@[i].xmit_ts_ns,
        final(q)@[i].sacked == old(q)@[i].sacked,
{
    crate::tcp_retrans::law_marked_lost(old(q)@, lost@, i);
}

/// A timer that is added waits under a number that was free; cancelling it
/// takes it away, and cancelling it again finds nothing.
pub proof fn law_timer_until_cancelled(
    w: &mut TimerWheel,
    n: TimerNode,
    id: TimerId,
    x: &mut TimerWheel,
    first: bool,
    y: &mut TimerWheel,
    second: bool,
    o: TimerId,
)
    requires
        old(w).wf(),
        old(w).has_slot(),
        call_ensures(TimerWheel::add, (w, n), id),
        *old(x) == *final(w),
        call_ensures(TimerWheel::cancel, (x, id), first),
        *old(y) == *final(x),
        call_ensures(TimerWheel::cancel, (y, id), second),
    ensures
        !old(w)@.contains_key(id),
        final(w)@.contains_key(id) && final(w)@[id] == n,
        o != id ==> (final(w)@.contains_key(o) <==> old(w)@.contains_key(o)),
        o != id && old(w)@.contains_key(o) ==> final(w)@[o] == old(w)@[o],
        first,
        !second,
        final(x)@ == old(w)@,
        final(y)@ == old(w)@,
{
}

/// A clock that was set on two readings shows the time that passed between
/// them, short by no more than a reading's share and a nanosecond, and only a
/// machine whose cycles keep their length is taken.
pub proof fn law_clock_reads(
    edx: u32,
    start: u64,
    cycles: u64,
    elapsed: u64,
    r: Result<TscEpoch, Error>,
    t: u64,
    at_start: u64,
)
    requires
        0 < cycles,
        start + cycles <= u64::MAX,
        (elapsed * 0x1_0000_0000) / (cycles as int) <= u64::MAX,
        call_ensures(init, (edx, start, (start + cycles) as u64, elapsed), r),
        r is Ok,
        call_ensures(now_ns, (&r->Ok_0, (start + cycles) as u64), t),
        call_ensures(now_ns, (&r->Ok_0, start), at_start),
    ensures
        at_start == 0,
        t <= elapsed,
        elapsed - t <= 1 + cycles / 0x1_0000_0000,
        (edx / 0x100) % 2 == 1,
{
    let e = r->Ok_0;
    let k = (elapsed * 0x1_0000_0000) / (cycles as int);
    crate::clock::law_calibration_reads_back(elapsed, cycles);
    assert(k >= 0) by (nonlinear_arith)
        requires
            k == (elapsed * 0x1_0000_0000) / (cycles as int),
            cycles > 0,
            elapsed >= 0,
    ;
    assert(k % 0x1_0000_0000_0000_0000 == k);
    let p = cycles * e.ns_per_tsc_scaled;
    assert(e.ns_per_tsc_scaled == k);
    let q = p / 0x1_0000_0000;
    assert(p == cycles * k);
    assert(((start + cycles) as u64).wrapping_sub(start) == cycles);
    assert(e.span_ns(cycles) == q);
    assert(0 <= q <= elapsed);
    assert(t == q);
    assert(e.span_ns(0) == 0) by {
        assert(0 * e.ns_per_tsc_scaled == 0) by (nonlinear_arith);
    }
}

/// Cycles keep their length where bit eight says so.
pub proof fn law_clock_is_steady(edx: u32, r: Result<(), Error>)
    requires
        call_ensures(check_invariant_tsc, (edx,), r),
    ensures
        r is Ok <==> (edx / 256) % 2 == 1,
        r is Err ==> r->Err_0 == Error::NoInvariantTsc,
{
}

/// A buffer is let go of in order where one to nine references were held.
pub proof fn law_reference_balance(refs: u16, c: &mut TcpCounters)
    requires
        call_ensures(note_handle_drop, (refs, c), ()),
    ensures
        final(c).mbuf_refcnt_drop_unexpected == old(c).mbuf_refcnt_drop_unexpected.wrapping_add(
            once(refs == 0 || refs > 9),
        ),
        final(c).tx_retrans == old(c).tx_retrans,
        final(c).conn_close == old(c).conn_close,
{
}

/// A receive pool has the room asked for and 2048 bytes of data behind it, or
/// is refused where the sum does not fit.
pub proof fn law_pool_shape(n: u32, headroom: u16, r: Option<PoolShape>)
    requires
        call_ensures(rx_pool_shape, (n, headroom), r),
    ensures
        r is None <==> headroom > 63_487,
        r matches Some(s) ==> s.n_elements == n && s.data_room_size == 2048 + headroom
            && s.priv_size == 0 && s.cache_size == 256,
{
}

/// Allocations and releases are counted apart, moving a block counts as both,
/// and bytes are counted where they are asked for.
pub proof fn law_allocations(
    a: &mut AllocCounts,
    d: &mut AllocCounts,
    m: &mut AllocCounts,
    size: u64,
    shown: (u64, u64, u64),
)
    requires
        call_ensures(AllocCounts::on_alloc, (a, size), ()),
        call_ensures(AllocCounts::on_dealloc, (d,), ()),
        call_ensures(AllocCounts::on_realloc, (m, size), ()),
        call_ensures(AllocCounts::snapshot, (&*final(m),), shown),
    ensures
        final(a).allocs == old(a).allocs.wrapping_add(1),
        final(a).bytes == old(a).bytes.wrapping_add(size),
        final(a).frees == old(a).frees,
        final(d).frees == old(d).frees.wrapping_add(1),
        final(d).allocs == old(d).allocs && final(d).bytes == old(d).bytes,
        final(m).allocs == old(m).allocs.wrapping_add(1),
        final(m).frees == old(m).frees.wrapping_add(1),
        final(m).bytes == old(m).bytes.wrapping_add(size),
        shown.0 == final(m).allocs && shown.1 == final(m).frees && shown.2 == final(m).bytes,
{
}

/// The first thirty-two allocations are traced while tracing is on, and none
/// that tracing itself makes.
pub proof fn law_traces(on: bool, inside: bool, so_far: u64, r: (bool, u64))
    requires
        call_ensures(sample_decision, (on, inside, so_far), r),
    ensures
        r.0 ==> on && !inside && so_far < 32,
        on && !inside && so_far < 32 ==> r.0 && r.1 == so_far + 1,
        !on || inside ==> r.1 == so_far,
{
}

/// The driver is asked for the statistics that it has, in slot order, and each
/// counter gets the answer to its own question, or zero where it has none.
/// Where the driver answered something else, what accumulates is kept and what
/// is a snapshot is zero.
pub proof fn law_statistics_answered(
    map: XstatMap,
    asked: Vec<u64>,
    rc: i32,
    got: &[u64],
    c: &mut Counters,
)
    requires
        map.wf(),
        call_ensures(xstat_query, (&map,), asked),
        got@.len() == asked@.len(),
        call_ensures(scrape, (&map, rc, got, c), ()),
    ensures
        asked@.len() == 0 || rc == asked@.len() ==> {
            let e = final(c).eth;
            &&& answered(map, asked@, got@, 0, e.eni_bw_in_allowance_exceeded)
            &&& answered(map, asked@, got@, 1, e.eni_bw_out_allowance_exceeded)
            &&& answered(map, asked@, got@, 2, e.eni_pps_allowance_exceeded)
            &&& answered(map, asked@, got@, 3, e.eni_conntrack_allowance_exceeded)
            &&& answered(map, asked@, got@, 4, e.eni_linklocal_allowance_exceeded)
            &&& answered(map, asked@, got@, 5, e.tx_q0_linearize)
            &&& answered(map, asked@, got@, 6, e.tx_q0_doorbells)
            &&& answered(map, asked@, got@, 7, e.tx_q0_missed_tx)
            &&& answered(map, asked@, got@, 8, e.tx_q0_bad_req_id)
            &&& answered(map, asked@, got@, 9, e.rx_q0_refill_partial)
            &&& answered(map, asked@, got@, 10, e.rx_q0_bad_desc_num)
            &&& answered(map, asked@, got@, 11, e.rx_q0_bad_req_id)
            &&& answered(map, asked@, got@, 12, e.rx_q0_mbuf_alloc_fail)
        },
        asked@.len() > 0 && rc != asked@.len() ==> {
            &&& final(c).eth.eni_bw_in_allowance_exceeded == 0
            &&& final(c).eth.eni_bw_out_allowance_exceeded == 0
            &&& final(c).eth.eni_pps_allowance_exceeded == 0
            &&& final(c).eth.eni_conntrack_allowance_exceeded == 0
            &&& final(c).eth.eni_linklocal_allowance_exceeded == 0
            &&& final(c).eth.tx_q0_doorbells == old(c).eth.tx_q0_doorbells
            &&& final(c).eth.rx_q0_mbuf_alloc_fail == old(c).eth.rx_q0_mbuf_alloc_fail
        },
        final(c).tcp == old(c).tcp,
        final(c).eth.rx_pkts == old(c).eth.rx_pkts,
{
    let v = scattered(map.ids@, got@);
    assert forall|k: int| 0 <= k < 13 implies answered(map, asked@, got@, k, #[trigger] v[k]) by {
        lemma_question_place(map.ids@, k);
        if map.ids@[k] is Some {
            let at = query_of(map.ids@.take(k)).len() as int;
            assert(asked@[at] == map.ids@[k]->0 && v[k] == got@[at]);
        }
    }
    if asked@.len() == 0 || rc == asked@.len() {
        assert(final(c).eth == crate::ena_xstats::with_slots(old(c).eth, v));
        assert(v[0] == final(c).eth.eni_bw_in_allowance_exceeded);
    }
}

/// What a counter shows is the answer to the question for slot `k`, or zero
/// where there was none.
pub open spec fn answered(
    map: XstatMap,
    asked: Seq<u64>,
    got: Seq<u64>,
    k: int,
    shown: u64,
) -> bool {
    match map.ids@[k] {
        Some(id) => exists|at: int|
            0 <= at < asked.len() && #[trigger] asked[at] == id && shown == got[at],
        None => shown == 0,
    }
}

proof fn lemma_question_place(ids: Seq<Option<u64>>, k: int)
    requires
        0 <= k < ids.len(),
    ensures
        query_of(ids.take(k)).len() <= query_of(ids).len(),
        ids[k] is Some ==> {
            let at = query_of(ids.take(k)).len() as int;
            at < query_of(ids).len() && query_of(ids)[at] == ids[k]->0
        },
    decreases ids.len(),
{
    let rest = ids.drop_last();
    if k == ids.len() - 1 {
        assert(ids.take(k) =~= rest);
    } else {
        lemma_question_place(rest, k);
        assert(rest.take(k) =~= ids.take(k));
    }
}

/// No more names are read than were written, and none where the driver failed.
pub proof fn law_names_read(room: usize, got: i32, r: usize)
    requires
        call_ensures(clamped_names_len, (room, got), r),
    ensures
        r <= room,
        got < 0 ==> r == 0,
        got >= 0 ==> r <= got,
        0 <= got <= room ==> r == got,
        got > room ==> r == room,
{
}

/// Slots have the names that the driver gives its statistics, and each slot's
/// number is the place of its name.
pub proof fn law_slot_names(probed: i32, names: &[[u8; 64]], got: i32, r: XstatMap)
    requires
        call_ensures(resolve_xstat_ids, (probed, names, got), r),
    ensures
        r.ids@.len() == 13,
        XSTAT_NAMES[0]@ == "bw_in_allowance_exceeded"@,
        XSTAT_NAMES[1]@ == "bw_out_allowance_exceeded"@,
        XSTAT_NAMES[2]@ == "pps_allowance_exceeded"@,
        XSTAT_NAMES[3]@ == "conntrack_allowance_exceeded"@,
        XSTAT_NAMES[4]@ == "linklocal_allowance_exceeded"@,
        XSTAT_NAMES[5]@ == "tx_q0_linearize"@,
        XSTAT_NAMES[6]@ == "tx_q0_doorbells"@,
        XSTAT_NAMES[7]@ == "tx_q0_missed_tx"@,
        XSTAT_NAMES[8]@ == "tx_q0_bad_req_id"@,
        XSTAT_NAMES[9]@ == "rx_q0_refill_partial"@,
        XSTAT_NAMES[10]@ == "rx_q0_bad_desc_num"@,
        XSTAT_NAMES[11]@ == "rx_q0_bad_req_id"@,
        XSTAT_NAMES[12]@ == "rx_q0_mbuf_alloc_fail"@,
{
}

/// A text of the driver ends in front of its first zero, or with the room for
/// it.
pub proof fn law_driver_text(raw: Seq<u8>)
    ensures
        ({
            let n = crate::ena_xstats::c_text(raw).len() as int;
            &&& n <= raw.len()
            &&& crate::ena_xstats::c_text(raw) == raw.take(n)
            &&& forall|i: int| 0 <= i < n ==> #[trigger] raw[i] != 0
            &&& n < raw.len() ==> raw[n] == 0
        }),
    decreases raw.len(),
{
    let t = crate::ena_xstats::c_text(raw);
    let n = t.len() as int;
    if raw.len() > 0 && raw[0] != 0 {
        let rest = raw.subrange(1, raw.len() as int);
        law_driver_text(rest);
        assert(t =~= raw.take(n)) by {
            assert(crate::ena_xstats::c_text(rest) == rest.take(n - 1));
        }
        assert forall|i: int| 0 <= i < n implies #[trigger] raw[i] != 0 by {
            if i > 0 {
                assert(rest[i - 1] != 0);
            }
        }
    } else {
        assert(t =~= raw.take(0));
    }
}

} // verus!
