//! State of one connection.
use std::collections::VecDeque;

use smallvec::SmallVec;
use vstd::prelude::*;

use crate::flow_table::FourTuple;
use crate::iovec::DpdkNetIovec;
use crate::mempool::Mbuf;
use crate::num::{low32, low32_of, low32_usize, min_int, min_u32};
use crate::rtt_histogram::RttHistogram;
use crate::tcp_rack::RackState;
use crate::tcp_reassembly::{ooo_bytes, ooo_mbufs, OooSegment, ReorderQueue};
use crate::tcp_retrans::{RetransEntry, SendRetrans};
use crate::tcp_rtt::RttEstimator;
use crate::tcp_sack::SackScoreboard;
use crate::tcp_seq::{precedes, precedes_or_is, seq_le, seq_lt};
use crate::tcp_state::TcpState;
use crate::tcp_timer_wheel::TimerId;
use crate::tcp_tlp::{TlpConfig, DEFAULT_MAX_CONSECUTIVE_PROBES, DEFAULT_MULTIPLIER_X100};

verus! {

/// Bytes that the user submitted and the driver has not taken yet.
#[derive(Debug)]
pub struct SendQueue {
    pub pending: VecDeque<u8>,
    pub cap: u32,
}

impl SendQueue {
    /// An empty queue for `cap` bytes.
    pub fn new(cap: u32) -> (r: Self)
        ensures
            r.pending@ == Seq::<u8>::empty(),
            r.cap == cap,
    {
        SendQueue { pending: VecDeque::with_capacity(cap as usize), cap }
    }

    /// Room left, as the cap less the low 32 bits of the length.
    pub open spec fn room(&self) -> u32 {
        self.cap.saturating_sub(low32_of(self.pending@.len() as int))
    }

    /// Room left, in bytes.
    pub fn free_space(&self) -> (r: u32)
        ensures
            r == self.room(),
            self.pending@.len() <= self.cap ==> r == self.cap - self.pending@.len(),
    {
        self.cap.saturating_sub(low32_usize(self.pending.len()))
    }

    /// Appends as many bytes as there is room for; returns how many.
    pub fn push(&mut self, bytes: &[u8]) -> (r: u32)
        ensures
            r == min_int(bytes@.len() as int, old(self).room() as int),
            final(self).pending@ == old(self).pending@ + bytes@.take(r as int),
            final(self).cap == old(self).cap,
    {
        let room: u32 = self.free_space();
        let take: usize = if bytes.len() < room as usize {
            bytes.len()
        } else {
            room as usize
        };
        let mut i: usize = 0;
        assert(self.pending@ =~= old(self).pending@ + bytes@.take(0));
        while i < take
            invariant
                i <= take,
                take <= bytes@.len(),
                self.cap == old(self).cap,
                self.pending@ == old(self).pending@ + bytes@.take(i as int),
            decreases take - i,
        {
            self.pending.push_back(bytes[i]);
            i += 1;
            assert(self.pending@ =~= old(self).pending@ + bytes@.take(i as int));
        }
        take as u32
    }
}

/// Pushing never takes a queue within its cap beyond it.
pub proof fn law_send_queue_within_cap(queued: nat, cap: u32, offered: nat)
    requires
        queued <= cap,
    ensures
        queued + min_int(offered as int, cap - queued) <= cap,
        min_int(offered as int, cap - queued) < offered ==> queued + min_int(
            offered as int,
            cap - queued,
        ) == cap,
{
}

/// Payload received in order: `len` bytes of a buffer, from `offset` on.
#[derive(Debug, Clone, Copy, PartialEq, Eq, Structural)]
pub struct InOrderSegment {
    pub mbuf: Mbuf,
    pub offset: u16,
    pub len: u16,
}

impl InOrderSegment {
    /// Length in bytes.
    pub fn len_bytes(&self) -> (r: u32)
        ensures
            r == self.len,
    {
        self.len as u32
    }

    /// The window lies within the 16-bit range of a buffer.
    pub open spec fn in_range(self) -> bool {
        self.offset + self.len <= u16::MAX
    }
}

/// Bytes held by a run of segments.
pub open spec fn seg_bytes(s: Seq<InOrderSegment>) -> nat
    decreases s.len(),
{
    if s.len() == 0 {
        0
    } else {
        s[0].len as nat + seg_bytes(s.subrange(1, s.len() as int))
    }
}

/// The bytes held by a run of segments, each as its place in a buffer.
pub open spec fn seg_places(s: Seq<InOrderSegment>) -> Seq<(Mbuf, int)>
    decreases s.len(),
{
    if s.len() == 0 {
        Seq::empty()
    } else {
        Seq::new(s[0].len as nat, |i: int| (s[0].mbuf, s[0].offset + i)) + seg_places(
            s.subrange(1, s.len() as int),
        )
    }
}

/// The buffers of a run of segments.
pub open spec fn seg_mbufs(s: Seq<InOrderSegment>) -> Seq<Mbuf> {
    Seq::new(s.len(), |i: int| s[i].mbuf)
}

/// The bytes of a run are those of its parts.
pub proof fn lemma_seg_bytes_concat(a: Seq<InOrderSegment>, b: Seq<InOrderSegment>)
    ensures
        seg_bytes(a + b) == seg_bytes(a) + seg_bytes(b),
    decreases a.len(),
{
    if a.len() == 0 {
        assert(a + b =~= b);
    } else {
        assert((a + b).subrange(1, (a + b).len() as int) =~= a.subrange(1, a.len() as int) + b);
        lemma_seg_bytes_concat(a.subrange(1, a.len() as int), b);
    }
}

/// What taking `budget` bytes off the front of a run yields: the segments
/// taken, those left, and whether a segment had to be split.
pub open spec fn split_at_budget(q: Seq<InOrderSegment>, budget: nat) -> (
    Seq<InOrderSegment>,
    Seq<InOrderSegment>,
    bool,
)
    decreases q.len(),
{
    if budget == 0 || q.len() == 0 {
        (Seq::empty(), q, false)
    } else if q[0].len <= budget {
        let (d, rest, s) = split_at_budget(
            q.subrange(1, q.len() as int),
            (budget - q[0].len) as nat,
        );
        (seq![q[0]] + d, rest, s)
    } else {
        (
            seq![InOrderSegment { len: budget as u16, ..q[0] }],
            seq![
                InOrderSegment {
                    offset: q[0].offset.saturating_add(budget as u16),
                    len: (q[0].len - budget) as u16,
                    ..q[0]
                },
            ] + q.subrange(1, q.len() as int),
            true,
        )
    }
}

/// Taking bytes off the front loses none and invents none: what is taken is
/// the budget or all there is, and together with what is left it is the run
/// that was there, byte for byte.
pub proof fn law_split_conserves(q: Seq<InOrderSegment>, budget: nat)
    requires
        forall|i: int| 0 <= i < q.len() ==> (#[trigger] q[i]).in_range(),
    ensures
        seg_bytes(split_at_budget(q, budget).0) == min_int(budget as int, seg_bytes(q) as int),
        seg_bytes(split_at_budget(q, budget).0) + seg_bytes(split_at_budget(q, budget).1)
            == seg_bytes(q),
        seg_places(split_at_budget(q, budget).0) + seg_places(split_at_budget(q, budget).1)
            == seg_places(q),
    decreases q.len(),
{
    if budget == 0 || q.len() == 0 {
        assert(seg_places(split_at_budget(q, budget).0) + seg_places(q) =~= seg_places(q));
    } else {
        let t = q.subrange(1, q.len() as int);
        assert forall|i: int| 0 <= i < t.len() implies (#[trigger] t[i]).in_range() by {
            assert(t[i] == q[i + 1]);
        }
        if q[0].len <= budget {
            law_split_conserves(t, (budget - q[0].len) as nat);
            let (d, rest, s) = split_at_budget(t, (budget - q[0].len) as nat);
            let dd = seq![q[0]] + d;
            assert(dd.subrange(1, dd.len() as int) =~= d);
            assert(seg_places(dd) + seg_places(rest) =~= seg_places(q));
        } else {
            let a = InOrderSegment { len: budget as u16, ..q[0] };
            let b = InOrderSegment {
                offset: q[0].offset.saturating_add(budget as u16),
                len: (q[0].len - budget) as u16,
                ..q[0]
            };
            let d = seq![a];
            let rest = seq![b] + t;
            assert(d.subrange(1, 1) =~= Seq::empty());
            assert(rest.subrange(1, rest.len() as int) =~= t);
            assert(seg_bytes(d.subrange(1, 1)) == 0);
            assert(seg_places(d.subrange(1, 1)) =~= Seq::empty());
            assert(q[0].in_range());
            assert(seg_places(d) + seg_places(rest) =~= seg_places(q));
        }
    }
}

/// Bytes received and not delivered yet: in order, and out of order.
#[derive(Debug)]
pub struct RecvQueue {
    pub bytes: VecDeque<InOrderSegment>,
    pub cap: u32,
    pub reorder: ReorderQueue,
}

impl RecvQueue {
    /// Both counts of bytes fit a word.
    pub open spec fn wf(&self) -> bool {
        &&& seg_bytes(self.bytes@) <= u32::MAX
        &&& self.reorder.wf()
    }

    /// Whether both counts of bytes fit a word.
    pub fn is_valid(&self) -> (r: bool)
        ensures
            r == self.wf(),
    {
        let mut t: u32 = 0;
        let mut i: usize = 0;
        let ghost q = self.bytes@;
        assert(q.subrange(0, q.len() as int) =~= q);
        while i < self.bytes.len()
            invariant
                q == self.bytes@,
                i <= q.len(),
                t + seg_bytes(q.subrange(i as int, q.len() as int)) == seg_bytes(q),
            decreases q.len() - i,
        {
            let ghost rest = q.subrange(i as int, q.len() as int);
            assert(rest[0] == q[i as int]);
            assert(rest.subrange(1, rest.len() as int) =~= q.subrange(i + 1, q.len() as int));
            if self.bytes[i].len as u32 > u32::MAX - t {
                return false;
            }
            t = t + self.bytes[i].len as u32;
            i += 1;
        }
        self.reorder.is_valid()
    }

    /// An empty queue for `cap` bytes.
    pub fn new(cap: u32) -> (r: Self)
        ensures
            r.wf(),
            r.bytes@ == Seq::<InOrderSegment>::empty(),
            r.cap == cap,
            r.reorder.segs@ == Seq::<OooSegment>::empty(),
            r.reorder.cap == cap,
    {
        RecvQueue { bytes: VecDeque::new(), cap, reorder: ReorderQueue::new(cap) }
    }

    /// Bytes held in order.
    pub fn buffered_bytes(&self) -> (r: u32)
        requires
            self.wf(),
        ensures
            r == seg_bytes(self.bytes@),
    {
        let mut t: u32 = 0;
        let mut i: usize = 0;
        let ghost q = self.bytes@;
        assert(q.subrange(0, q.len() as int) =~= q);
        while i < self.bytes.len()
            invariant
                self.wf(),
                q == self.bytes@,
                i <= q.len(),
                t + seg_bytes(q.subrange(i as int, q.len() as int)) == seg_bytes(q),
            decreases q.len() - i,
        {
            let ghost rest = q.subrange(i as int, q.len() as int);
            assert(rest[0] == q[i as int]);
            assert(rest.subrange(1, rest.len() as int) =~= q.subrange(i + 1, q.len() as int));
            t = t + self.bytes[i].len as u32;
            i += 1;
        }
        t
    }

    /// Room for in-order bytes.
    pub open spec fn room(&self) -> u32 {
        self.cap.saturating_sub(seg_bytes(self.bytes@) as u32)
    }

    /// Room once the out-of-order bytes are counted too.
    pub open spec fn room_total(&self) -> u32 {
        self.room().saturating_sub(ooo_bytes(self.reorder.segs@) as u32)
    }

    /// Room for in-order bytes.
    pub fn free_space(&self) -> (r: u32)
        requires
            self.wf(),
        ensures
            r == self.room(),
    {
        self.cap.saturating_sub(self.buffered_bytes())
    }

    /// Room once the out-of-order bytes are counted too.
    pub fn free_space_total(&self) -> (r: u32)
        requires
            self.wf(),
        ensures
            r == self.room_total(),
    {
        self.cap.saturating_sub(self.buffered_bytes()).saturating_sub(self.reorder.total_bytes())
    }
}

/// The advertised room never exceeds what can still be held.
pub proof fn law_window_is_held(cap: u32, in_order: nat, out_of_order: nat)
    requires
        in_order <= u32::MAX,
        out_of_order <= u32::MAX,
    ensures
        in_order + out_of_order <= cap ==> cap.saturating_sub(in_order as u32).saturating_sub(
            out_of_order as u32,
        ) + in_order + out_of_order == cap,
        in_order + out_of_order > cap ==> cap.saturating_sub(in_order as u32).saturating_sub(
            out_of_order as u32,
        ) == 0,
{
}

/// A snapshot of a connection's sending side, in bytes and microseconds.
#[derive(Debug, Clone, Copy, PartialEq, Eq, Structural)]
pub struct ConnStats {
    pub snd_una: u32,
    pub snd_nxt: u32,
    pub snd_wnd: u32,
    pub send_buf_bytes_pending: u32,
    pub send_buf_bytes_free: u32,
    pub srtt_us: u32,
    pub rttvar_us: u32,
    pub min_rtt_us: u32,
    pub rto_us: u32,
}

/// A tail-loss probe that was sent.
#[derive(Debug, Clone, Copy, PartialEq, Eq, Structural)]
pub struct RecentProbe {
    pub seq: u32,
    pub len: u16,
    pub tx_ts_ns: u64,
    pub attributed: bool,
}

impl RecentProbe {
    /// A duplicate SACK of `[left, right)` at `now_ns` shows this probe to be
    /// spurious: it covers the probe, the probe is younger than the window,
    /// and no block has been attributed to it before.
    pub open spec fn explained_by(
        self,
        left: u32,
        right: u32,
        now_ns: u64,
        window_ns: int,
    ) -> bool {
        &&& !self.attributed
        &&& precedes_or_is(left, self.seq)
        &&& precedes_or_is(self.seq.wrapping_add(self.len as u32), right)
        &&& now_ns - self.tx_ts_ns < window_ns || (now_ns < self.tx_ts_ns && window_ns > 0)
    }
}

/// The segments delivered by the most recent poll.
#[verifier::external_body]
pub struct DeliveredSegments {
    segs: SmallVec<[InOrderSegment; 4]>,
}

/// The segments that a `DeliveredSegments` holds, in order.
pub uninterp spec fn delivered_contents(d: DeliveredSegments) -> Seq<InOrderSegment>;

impl DeliveredSegments {
    /// `SmallVec::new`: a vector without elements.
    #[verifier::external_body]
    pub(crate) fn new() -> (r: Self)
        ensures
            delivered_contents(r) == Seq::<InOrderSegment>::empty(),
    {
        DeliveredSegments { segs: SmallVec::new() }
    }

    /// `SmallVec::clear`: removes every element.
    #[verifier::external_body]
    pub(crate) fn clear(&mut self)
        ensures
            delivered_contents(*final(self)) == Seq::<InOrderSegment>::empty(),
    {
        self.segs.clear()
    }

    /// `SmallVec::push`: appends one element at the end. Like `Vec::push`, it
    /// stops the process when memory runs out.
    #[verifier::external_body]
    pub(crate) fn push(&mut self, s: InOrderSegment)
        ensures
            delivered_contents(*final(self)) == delivered_contents(*old(self)).push(s),
    {
        self.segs.push(s)
    }

    /// `SmallVec::len`: the number of elements.
    #[verifier::external_body]
    pub(crate) fn len(&self) -> (r: usize)
        ensures
            r == delivered_contents(*self).len(),
    {
        self.segs.len()
    }

    /// Indexing of a `SmallVec`: the element at an index within the length.
    #[verifier::external_body]
    pub(crate) fn at(&self, i: usize) -> (r: InOrderSegment)
        requires
            i < delivered_contents(*self).len(),
        ensures
            r == delivered_contents(*self)[i as int],
    {
        self.segs[i]
    }
}

/// One connection.
pub struct TcpConn {
    pub four_tuple: FourTuple,
    pub state: TcpState,
    pub snd_una: u32,
    pub snd_nxt: u32,
    pub snd_wnd: u32,
    pub snd_wl1: u32,
    pub snd_wl2: u32,
    pub iss: u32,
    pub rcv_nxt: u32,
    pub rcv_wnd: u32,
    pub irs: u32,
    /// The peer's segment size; before the handshake, the one we offer.
    pub peer_mss: u16,
    /// Shift applied to the windows we advertise.
    pub ws_shift_out: u8,
    /// Shift applied to the windows the peer advertises.
    pub ws_shift_in: u8,
    pub ts_enabled: bool,
    /// The peer's timestamp that we echo.
    pub ts_recent: u32,
    pub ts_recent_age: u64,
    pub sack_enabled: bool,
    pub sack_scoreboard: SackScoreboard,
    pub snd: SendQueue,
    pub recv: RecvQueue,
    /// Sequence number of our FIN, once it was sent.
    pub our_fin_seq: Option<u32>,
    /// When TIME_WAIT ends.
    pub time_wait_deadline_ns: Option<u64>,
    /// Window field of the last ACK.
    pub last_advertised_wnd: Option<u16>,
    /// Range of the out-of-order segment that the next ACK answers.
    pub last_sack_trigger: Option<(u32, u32)>,
    /// Every pending timer of the connection.
    pub timer_ids: Vec<TimerId>,
    pub snd_retrans: SendRetrans,
    pub rtt_est: RttEstimator,
    pub rto_timer_id: Option<TimerId>,
    pub tlp_timer_id: Option<TimerId>,
    pub syn_retrans_count: u8,
    pub syn_retrans_timer_id: Option<TimerId>,
    pub rack_aggressive: bool,
    /// The timeout does not double on a retransmission.
    pub rto_no_backoff: bool,
    pub rack: RackState,
    pub tlp_pto_min_floor_us: u32,
    pub tlp_pto_srtt_multiplier_x100: u16,
    pub tlp_skip_flight_size_gate: bool,
    pub tlp_max_consecutive_probes: u8,
    pub tlp_skip_rtt_sample_gate: bool,
    /// Probes since the last sample or newly acknowledged data.
    pub tlp_consecutive_probes_fired: u8,
    pub tlp_rtt_sample_seen_since_last_tlp: bool,
    /// Ring of the probes sent last.
    pub tlp_recent_probes: [Option<RecentProbe>; 5],
    pub tlp_recent_probes_next_slot: u8,
    /// When our SYN was sent; 0 if it was not.
    pub syn_tx_ts_ns: u64,
    /// A send was accepted only in part.
    pub send_refused_pending: bool,
    /// TIME_WAIT ends at the next reaping.
    pub force_tw_skip: bool,
    pub persist_timer_id: Option<TimerId>,
    pub persist_backoff_shift: u8,
    pub rtt_histogram: RttHistogram,
    pub delivered_segments: DeliveredSegments,
    pub readable_scratch_iovecs: Vec<DpdkNetIovec>,
    /// The connection was opened by the peer.
    pub is_passive_open: bool,
}

/// `r` is a fresh client connection with these settings.
pub open spec fn is_fresh_client(
    r: TcpConn,
    tuple: FourTuple,
    iss: u32,
    our_mss: u16,
    recv_buf_bytes: u32,
    send_buf_bytes: u32,
    min_rto_us: u32,
    initial_rto_us: u32,
    max_rto_us: u32,
) -> bool {
    &&& r.four_tuple == tuple
    &&& r.state == TcpState::Closed
    &&& r.snd_una == iss
    &&& r.snd_nxt == iss
    &&& r.snd_wnd == 0
    &&& r.snd_wl1 == 0
    &&& r.snd_wl2 == 0
    &&& r.iss == iss
    &&& r.rcv_nxt == 0
    &&& r.rcv_wnd == min_int(recv_buf_bytes as int, u16::MAX as int)
    &&& r.irs == 0
    &&& r.peer_mss == our_mss
    &&& r.ws_shift_out == 0
    &&& r.ws_shift_in == 0
    &&& !r.ts_enabled
    &&& r.ts_recent == 0
    &&& r.ts_recent_age == 0
    &&& !r.sack_enabled
    &&& r.sack_scoreboard.count == 0
    &&& r.snd.pending@ == Seq::<u8>::empty()
    &&& r.snd.cap == send_buf_bytes
    &&& r.recv.bytes@ == Seq::<InOrderSegment>::empty()
    &&& r.recv.cap == recv_buf_bytes
    &&& r.recv.reorder.segs@ == Seq::<OooSegment>::empty()
    &&& r.recv.reorder.cap == recv_buf_bytes
    &&& r.our_fin_seq is None
    &&& r.time_wait_deadline_ns is None
    &&& r.last_advertised_wnd is None
    &&& r.last_sack_trigger is None
    &&& r.timer_ids@ == Seq::<TimerId>::empty()
    &&& r.snd_retrans@ == Seq::<RetransEntry>::empty()
    &&& r.rtt_est == (RttEstimator {
        srtt: None,
        rttvar: 0,
        rto: initial_rto_us,
        min_rto: min_rto_us,
        max_rto: max_rto_us,
    })
    &&& r.rto_timer_id is None
    &&& r.tlp_timer_id is None
    &&& r.syn_retrans_count == 0
    &&& r.syn_retrans_timer_id is None
    &&& !r.rack_aggressive
    &&& !r.rto_no_backoff
    &&& r.rack == (RackState {
        xmit_ts_ns: 0,
        end_seq: 0,
        min_rtt_us: 0,
        reo_wnd_us: 0,
        dsack_seen: false,
    })
    &&& r.tlp_pto_min_floor_us == 0
    &&& r.tlp_pto_srtt_multiplier_x100 == DEFAULT_MULTIPLIER_X100
    &&& !r.tlp_skip_flight_size_gate
    &&& r.tlp_max_consecutive_probes == DEFAULT_MAX_CONSECUTIVE_PROBES
    &&& !r.tlp_skip_rtt_sample_gate
    &&& r.tlp_consecutive_probes_fired == 0
    &&& !r.tlp_rtt_sample_seen_since_last_tlp
    &&& r.tlp_recent_probes@ == Seq::new(5, |i: int| None::<RecentProbe>)
    &&& r.tlp_recent_probes_next_slot == 0
    &&& r.syn_tx_ts_ns == 0
    &&& !r.send_refused_pending
    &&& !r.force_tw_skip
    &&& r.persist_timer_id is None
    &&& r.persist_backoff_shift == 0
    &&& r.rtt_histogram.buckets@ == Seq::new(16, |i: int| 0u32)
    &&& delivered_contents(r.delivered_segments) == Seq::<InOrderSegment>::empty()
    &&& r.readable_scratch_iovecs@ == Seq::<DpdkNetIovec>::empty()
    &&& !r.is_passive_open
}

/// The pieces that a run of delivered segments is handed out as.
pub open spec fn iovecs_of(s: Seq<InOrderSegment>) -> Seq<DpdkNetIovec> {
    Seq::new(
        s.len(),
        |i: int| DpdkNetIovec { base: s[i].mbuf, offset: s[i].offset, len: s[i].len as u32 },
    )
}

impl TcpConn {
    /// Counts fit their words, shifts their bound and the ring its slots.
    pub open spec fn wf(&self) -> bool {
        &&& self.recv.wf()
        &&& self.ws_shift_out <= 14
        &&& self.tlp_recent_probes_next_slot < 5
    }

    /// Whether the connection keeps its invariant.
    pub fn is_valid(&self) -> (r: bool)
        ensures
            r == self.wf(),
    {
        self.recv.is_valid() && self.ws_shift_out <= 14 && self.tlp_recent_probes_next_slot < 5
    }

    /// A client connection that has not sent its SYN yet.
    pub fn new_client(
        tuple: FourTuple,
        iss: u32,
        our_mss: u16,
        recv_buf_bytes: u32,
        send_buf_bytes: u32,
        min_rto_us: u32,
        initial_rto_us: u32,
        max_rto_us: u32,
    ) -> (r: Self)
        ensures
            r.wf(),
            is_fresh_client(
                r,
                tuple,
                iss,
                our_mss,
                recv_buf_bytes,
                send_buf_bytes,
                min_rto_us,
                initial_rto_us,
                max_rto_us,
            ),
    {
        let rcv_wnd: u32 = min_u32(recv_buf_bytes, u16::MAX as u32);
        let mss: u32 = if our_mss == 0 {
            1
        } else {
            our_mss as u32
        };
        let in_flight: u32 = (send_buf_bytes / mss).saturating_add(1);
        let r = TcpConn {
            four_tuple: tuple,
            state: TcpState::Closed,
            snd_una: iss,
            snd_nxt: iss,
            snd_wnd: 0,
            snd_wl1: 0,
            snd_wl2: 0,
            iss,
            rcv_nxt: 0,
            rcv_wnd,
            irs: 0,
            peer_mss: our_mss,
            ws_shift_out: 0,
            ws_shift_in: 0,
            ts_enabled: false,
            ts_recent: 0,
            ts_recent_age: 0,
            sack_enabled: false,
            sack_scoreboard: SackScoreboard::new(),
            snd: SendQueue::new(send_buf_bytes),
            recv: RecvQueue::new(recv_buf_bytes),
            our_fin_seq: None,
            time_wait_deadline_ns: None,
            last_advertised_wnd: None,
            last_sack_trigger: None,
            timer_ids: Vec::with_capacity(32),
            snd_retrans: SendRetrans::with_capacity(in_flight as usize),
            rtt_est: RttEstimator::new(min_rto_us, initial_rto_us, max_rto_us),
            rto_timer_id: None,
            tlp_timer_id: None,
            syn_retrans_count: 0,
            syn_retrans_timer_id: None,
            rack_aggressive: false,
            rto_no_backoff: false,
            rack: RackState::new(),
            tlp_pto_min_floor_us: 0,
            tlp_pto_srtt_multiplier_x100: DEFAULT_MULTIPLIER_X100,
            tlp_skip_flight_size_gate: false,
            tlp_max_consecutive_probes: DEFAULT_MAX_CONSECUTIVE_PROBES,
            tlp_skip_rtt_sample_gate: false,
            tlp_consecutive_probes_fired: 0,
            tlp_rtt_sample_seen_since_last_tlp: false,
            tlp_recent_probes: [None, None, None, None, None],
            tlp_recent_probes_next_slot: 0,
            syn_tx_ts_ns: 0,
            send_refused_pending: false,
            force_tw_skip: false,
            persist_timer_id: None,
            persist_backoff_shift: 0,
            rtt_histogram: RttHistogram::default(),
            delivered_segments: DeliveredSegments::new(),
            readable_scratch_iovecs: Vec::new(),
            is_passive_open: false,
        };
        assert(r.tlp_recent_probes@ =~= Seq::new(5, |i: int| None::<RecentProbe>));
        r
    }

    /// The probe settings that the connection's own amount to: the largest
    /// floor stands for none.
    pub fn tlp_config(&self, _engine_min_rto_us: u32) -> (r: TlpConfig)
        ensures
            r == (TlpConfig {
                floor_us: if self.tlp_pto_min_floor_us == u32::MAX {
                    0
                } else {
                    self.tlp_pto_min_floor_us
                },
                multiplier_x100: self.tlp_pto_srtt_multiplier_x100,
                skip_flight_size_gate: self.tlp_skip_flight_size_gate,
            }),
    {
        let floor: u32 = if self.tlp_pto_min_floor_us == u32::MAX {
            0
        } else {
            self.tlp_pto_min_floor_us
        };
        TlpConfig {
            floor_us: floor,
            multiplier_x100: self.tlp_pto_srtt_multiplier_x100,
            skip_flight_size_gate: self.tlp_skip_flight_size_gate,
        }
    }

    /// A probe may be armed: something is in flight, no probe is pending, the
    /// budget is not used up, a sample was seen since the last probe (or that
    /// does not matter), and there is a round-trip time to compute with.
    pub open spec fn may_arm_tlp(&self) -> bool {
        &&& self.snd_retrans@.len() > 0
        &&& self.tlp_timer_id is None
        &&& self.tlp_consecutive_probes_fired < self.tlp_max_consecutive_probes
        &&& self.tlp_skip_rtt_sample_gate || self.tlp_rtt_sample_seen_since_last_tlp
        &&& self.rtt_est.srtt is Some
    }

    /// Whether a probe may be armed.
    pub fn tlp_arm_gate_passes(&self) -> (r: bool)
        ensures
            r == self.may_arm_tlp(),
    {
        if self.snd_retrans.is_empty() {
            return false;
        }
        if self.tlp_timer_id.is_some() {
            return false;
        }
        if self.tlp_consecutive_probes_fired >= self.tlp_max_consecutive_probes {
            return false;
        }
        if !self.tlp_skip_rtt_sample_gate && !self.tlp_rtt_sample_seen_since_last_tlp {
            return false;
        }
        self.rtt_est.srtt_us().is_some()
    }

    /// Records a probe that was sent: it takes the next slot of the ring, uses
    /// up budget and calls for a fresh sample.
    pub fn on_tlp_probe_fired(&mut self, seq: u32, len: u16, tx_ts_ns: u64)
        requires
            old(self).wf(),
        ensures
            final(self).wf(),
            final(self).tlp_recent_probes@ == old(self).tlp_recent_probes@.update(
                old(self).tlp_recent_probes_next_slot as int,
                Some(RecentProbe { seq, len, tx_ts_ns, attributed: false }),
            ),
            *final(self) == (TcpConn {
                tlp_recent_probes: final(self).tlp_recent_probes,
                tlp_recent_probes_next_slot: ((old(self).tlp_recent_probes_next_slot + 1)
                    % 5) as u8,
                tlp_consecutive_probes_fired: old(
                    self,
                ).tlp_consecutive_probes_fired.saturating_add(1),
                tlp_rtt_sample_seen_since_last_tlp: false,
                ..*old(self)
            }),
    {
        let slot: usize = self.tlp_recent_probes_next_slot as usize;
        self.tlp_recent_probes[slot] = Some(
            RecentProbe { seq, len, tx_ts_ns, attributed: false },
        );
        self.tlp_recent_probes_next_slot = ((slot + 1) % 5) as u8;
        self.tlp_consecutive_probes_fired = self.tlp_consecutive_probes_fired.saturating_add(1);
        self.tlp_rtt_sample_seen_since_last_tlp = false;
    }

    /// A round-trip sample renews the probe budget and opens the sample gate.
    pub fn on_rtt_sample_tlp_hook(&mut self)
        ensures
            *final(self) == (TcpConn {
                tlp_consecutive_probes_fired: 0,
                tlp_rtt_sample_seen_since_last_tlp: true,
                ..*old(self)
            }),
    {
        self.tlp_consecutive_probes_fired = 0;
        self.tlp_rtt_sample_seen_since_last_tlp = true;
    }

    /// Newly acknowledged data renews the probe budget.
    pub fn on_new_data_ack_tlp_hook(&mut self)
        ensures
            *final(self) == (TcpConn { tlp_consecutive_probes_fired: 0, ..*old(self) }),
    {
        self.tlp_consecutive_probes_fired = 0;
    }

    /// The round-trip time of the handshake that a SYN-ACK at `now_ns` shows,
    /// in microseconds on the 32-bit circle.
    pub open spec fn syn_rtt(&self, now_ns: u64) -> u32 {
        low32_of((now_ns / 1_000) as int).wrapping_sub(low32_of((self.syn_tx_ts_ns / 1_000) as int))
    }

    /// That time may be taken as a sample: the SYN was sent, and once only, and
    /// the time is plausible.
    pub open spec fn syn_rtt_usable(&self, now_ns: u64) -> bool {
        &&& self.syn_retrans_count == 0
        &&& self.syn_tx_ts_ns != 0
        &&& 1 <= self.syn_rtt(now_ns) < 60_000_000
    }

    /// The connection once the round-trip time of the handshake was taken as a
    /// sample, and sorted into the histogram or not.
    pub open spec fn syn_rtt_taken(
        &self,
        now_ns: u64,
        edges: [u32; 15],
        histogram: bool,
        after: TcpConn,
    ) -> bool {
        let rtt = self.syn_rtt(now_ns);
        &&& if histogram {
            self.rtt_histogram.updated(rtt, edges, after.rtt_histogram)
        } else {
            after.rtt_histogram == self.rtt_histogram
        }
        &&& after == (TcpConn {
            rtt_est: self.rtt_est.sampled(rtt),
            rack: RackState { min_rtt_us: self.rack.min_rtt_after(rtt), ..self.rack },
            rtt_histogram: after.rtt_histogram,
            ..*self
        })
    }

    /// Takes the round-trip time of the handshake as the first sample, where
    /// it is usable; says whether it was.
    pub fn maybe_seed_srtt_from_syn(
        &mut self,
        now_ns: u64,
        rtt_histogram_edges: &[u32; 15],
    ) -> (r: bool)
        ensures
            r == old(self).syn_rtt_usable(now_ns),
            !r ==> *final(self) == *old(self),
            r ==> old(self).syn_rtt_taken(now_ns, *rtt_histogram_edges, true, *final(self)),
    {
        self.seed_srtt_from_syn(now_ns, rtt_histogram_edges, true)
    }

    /// Takes the round-trip time of the handshake as the first sample, where
    /// it is usable, and sorts it into the histogram only where `histogram`
    /// says so; says whether it was usable.
    pub fn seed_srtt_from_syn(
        &mut self,
        now_ns: u64,
        rtt_histogram_edges: &[u32; 15],
        histogram: bool,
    ) -> (r: bool)
        ensures
            r == old(self).syn_rtt_usable(now_ns),
            !r ==> *final(self) == *old(self),
            r ==> old(self).syn_rtt_taken(now_ns, *rtt_histogram_edges, histogram, *final(self)),
    {
        if self.syn_retrans_count != 0 {
            return false;
        }
        if self.syn_tx_ts_ns == 0 {
            return false;
        }
        let rtt_us: u32 = low32(now_ns / 1_000).wrapping_sub(low32(self.syn_tx_ts_ns / 1_000));
        if rtt_us < 1 || rtt_us >= 60_000_000 {
            return false;
        }
        self.rtt_est.sample(rtt_us);
        self.rack.update_min_rtt(rtt_us);
        if histogram {
            self.rtt_histogram.update(rtt_us, rtt_histogram_edges);
        }
        true
    }

    /// How old a probe may be for a duplicate SACK to be about it: four
    /// round-trip times, or one second where no such time is known yet.
    pub open spec fn attribution_window_ns(&self) -> int {
        let srtt = match self.rtt_est.srtt {
            Some(s) => s,
            None => self.rack.min_rtt_us,
        };
        if srtt == 0 {
            1_000_000_000
        } else {
            srtt * 4_000
        }
    }

    /// Slot `i` holds a probe that the block explains.
    pub open spec fn slot_explained(&self, i: int, left: u32, right: u32, now_ns: u64) -> bool {
        self.tlp_recent_probes[i] matches Some(p) && p.explained_by(
            left,
            right,
            now_ns,
            self.attribution_window_ns(),
        )
    }

    /// The block explains no recent probe.
    pub open spec fn none_explained(&self, left: u32, right: u32, now_ns: u64) -> bool {
        forall|i: int| 0 <= i < 5 ==> !#[trigger] self.slot_explained(i, left, right, now_ns)
    }

    /// Attributes a duplicate SACK to the first recent probe that it explains,
    /// at most one, and never to a probe twice; says whether there was one.
    pub fn attribute_dsack_to_recent_tlp_probe(
        &mut self,
        block_left: u32,
        block_right: u32,
        now_ns: u64,
    ) -> (r: bool)
        ensures
            r == exists|i: int|
                0 <= i < 5 && #[trigger] old(self).slot_explained(
                    i,
                    block_left,
                    block_right,
                    now_ns,
                ),
            !r ==> *final(self) == *old(self),
            !r ==> old(self).none_explained(block_left, block_right, now_ns),
            r ==> exists|i: int|
                {
                    &&& 0 <= i < 5
                    &&& #[trigger] old(self).slot_explained(i, block_left, block_right, now_ns)
                    &&& forall|j: int|
                        0 <= j < i ==> !#[trigger] old(self).slot_explained(
                            j,
                            block_left,
                            block_right,
                            now_ns,
                        )
                    &&& final(self).tlp_recent_probes@ == old(self).tlp_recent_probes@.update(
                        i,
                        Some(RecentProbe { attributed: true, ..old(self).tlp_recent_probes[i]->0 }),
                    )
                },
            *final(self) == (TcpConn {
                tlp_recent_probes: final(self).tlp_recent_probes,
                ..*old(self)
            }),
    {
        let srtt_us: u32 = match self.rtt_est.srtt_us() {
            Some(s) => s,
            None => self.rack.min_rtt_us,
        };
        let window_ns: u64 = if srtt_us == 0 {
            1_000_000_000
        } else {
            srtt_us as u64 * 1_000 * 4
        };
        let mut i: usize = 0;
        while i < 5
            invariant
                i <= 5,
                *self == *old(self),
                window_ns == self.attribution_window_ns(),
                forall|j: int|
                    0 <= j < i ==> !#[trigger] old(self).slot_explained(
                        j,
                        block_left,
                        block_right,
                        now_ns,
                    ),
            decreases 5 - i,
        {
            if let Some(p) = self.tlp_recent_probes[i] {
                let probe_end: u32 = p.seq.wrapping_add(p.len as u32);
                if !p.attributed && seq_le(block_left, p.seq) && seq_le(probe_end, block_right)
                    && now_ns.saturating_sub(p.tx_ts_ns) < window_ns {
                    assert(old(self).slot_explained(i as int, block_left, block_right, now_ns));
                    self.tlp_recent_probes[i] = Some(RecentProbe { attributed: true, ..p });
                    return true;
                }
            }
            assert(!old(self).slot_explained(i as int, block_left, block_right, now_ns));
            i += 1;
        }
        false
    }

    /// The addresses and ports.
    pub fn four_tuple(&self) -> (r: FourTuple)
        ensures
            r == self.four_tuple,
    {
        self.four_tuple
    }

    /// A snapshot of the sending side.
    pub fn stats(&self, send_buffer_bytes: u32) -> (r: ConnStats)
        ensures
            r == (ConnStats {
                snd_una: self.snd_una,
                snd_nxt: self.snd_nxt,
                snd_wnd: self.snd_wnd,
                send_buf_bytes_pending: low32_of(self.snd.pending@.len() as int),
                send_buf_bytes_free: send_buffer_bytes.saturating_sub(
                    low32_of(self.snd.pending@.len() as int),
                ),
                srtt_us: match self.rtt_est.srtt {
                    Some(s) => s,
                    None => 0,
                },
                rttvar_us: self.rtt_est.rttvar,
                min_rtt_us: self.rack.min_rtt_us,
                rto_us: self.rtt_est.rto,
            }),
    {
        let pending: u32 = low32_usize(self.snd.pending.len());
        let srtt: u32 = match self.rtt_est.srtt_us() {
            Some(s) => s,
            None => 0,
        };
        ConnStats {
            snd_una: self.snd_una,
            snd_nxt: self.snd_nxt,
            snd_wnd: self.snd_wnd,
            send_buf_bytes_pending: pending,
            send_buf_bytes_free: send_buffer_bytes.saturating_sub(pending),
            srtt_us: srtt,
            rttvar_us: self.rtt_est.rttvar_us(),
            min_rtt_us: self.rack.min_rtt_us,
            rto_us: self.rtt_est.rto_us(),
        }
    }

    /// Whether our FIN was sent and `ack_seq` acknowledges it.
    pub fn fin_has_been_acked(&self, ack_seq: u32) -> (r: bool)
        ensures
            r == (self.our_fin_seq matches Some(fs) && !precedes(ack_seq, fs.wrapping_add(1))),
    {
        match self.our_fin_seq {
            Some(fs) => !seq_lt(ack_seq, fs.wrapping_add(1)),
            None => false,
        }
    }

    /// The buffers that the delivered segments refer to.
    pub fn delivered_mbufs(&self) -> (r: Vec<Mbuf>)
        ensures
            r@ == seg_mbufs(delivered_contents(self.delivered_segments)),
    {
        let mut out: Vec<Mbuf> = Vec::new();
        let mut i: usize = 0;
        let ghost d = delivered_contents(self.delivered_segments);
        while i < self.delivered_segments.len()
            invariant
                d == delivered_contents(self.delivered_segments),
                i <= d.len(),
                out@ == seg_mbufs(d.take(i as int)),
            decreases d.len() - i,
        {
            out.push(self.delivered_segments.at(i).mbuf);
            i += 1;
            assert(out@ =~= seg_mbufs(d.take(i as int)));
        }
        assert(d.take(i as int) =~= d);
        out
    }

    /// The references to buffers that the receiving side holds: for bytes in
    /// order, for delivered ones and for those out of order.
    pub open spec fn held(&self) -> Seq<Mbuf> {
        seg_mbufs(self.recv.bytes@) + seg_mbufs(delivered_contents(self.delivered_segments))
            + ooo_mbufs(self.recv.reorder.segs@)
    }

    /// The references to buffers that the receiving side holds.
    pub fn held_mbufs(&self) -> (r: Vec<Mbuf>)
        ensures
            r@ == self.held(),
    {
        let mut out: Vec<Mbuf> = Vec::new();
        let mut i: usize = 0;
        while i < self.recv.bytes.len()
            invariant
                i <= self.recv.bytes@.len(),
                out@ == seg_mbufs(self.recv.bytes@.take(i as int)),
            decreases self.recv.bytes@.len() - i,
        {
            out.push(self.recv.bytes[i].mbuf);
            i += 1;
            assert(out@ =~= seg_mbufs(self.recv.bytes@.take(i as int)));
        }
        assert(self.recv.bytes@.take(i as int) =~= self.recv.bytes@);
        let mut delivered = self.delivered_mbufs();
        out.append(&mut delivered);
        let mut reordered = self.recv.reorder.mbufs();
        out.append(&mut reordered);
        out
    }

    /// Lets go of everything that the receiving side holds and returns the
    /// references.
    pub fn clear_received(&mut self) -> (r: Vec<Mbuf>)
        requires
            old(self).wf(),
        ensures
            final(self).wf(),
            r@ == old(self).held(),
            final(self).held() == Seq::<Mbuf>::empty(),
            final(self).recv.bytes@ == Seq::<InOrderSegment>::empty(),
            final(self).recv.reorder.segs@ == Seq::<OooSegment>::empty(),
            final(self).recv.reorder.cap == old(self).recv.reorder.cap,
            delivered_contents(final(self).delivered_segments) == Seq::<InOrderSegment>::empty(),
            final(self).readable_scratch_iovecs@ == Seq::<DpdkNetIovec>::empty(),
            *final(self) == (TcpConn {
                recv: RecvQueue {
                    bytes: final(self).recv.bytes,
                    reorder: final(self).recv.reorder,
                    ..old(self).recv
                },
                delivered_segments: final(self).delivered_segments,
                readable_scratch_iovecs: final(self).readable_scratch_iovecs,
                ..*old(self)
            }),
    {
        let out = self.held_mbufs();
        self.recv.bytes.clear();
        self.delivered_segments.clear();
        self.readable_scratch_iovecs.clear();
        self.recv.reorder.clear();
        assert(self.held() =~= Seq::<Mbuf>::empty());
        out
    }

    /// Moves `total` bytes' worth of in-order segments to the delivered ones,
    /// which are emptied first; says whether the last one had to be split, and
    /// returns the references that the emptied ones held.
    pub fn pop_delivered(&mut self, total: u32) -> (r: (bool, Vec<Mbuf>))
        requires
            old(self).wf(),
        ensures
            final(self).wf(),
            r.1@ == seg_mbufs(delivered_contents(old(self).delivered_segments)),
            ({
                let (d, rest, s) = split_at_budget(old(self).recv.bytes@, total as nat);
                &&& delivered_contents(final(self).delivered_segments) == d
                &&& final(self).recv.bytes@ == rest
                &&& r.0 == s
            }),
            *final(self) == (TcpConn {
                delivered_segments: final(self).delivered_segments,
                recv: RecvQueue { bytes: final(self).recv.bytes, ..old(self).recv },
                ..*old(self)
            }),
    {
        let released = self.delivered_mbufs();
        self.delivered_segments.clear();
        let mut remaining: u32 = total;
        let mut split: bool = false;
        let ghost q0 = self.recv.bytes@;
        let ghost (d0, rest0, s0) = split_at_budget(q0, total as nat);
        assert(Seq::<InOrderSegment>::empty() + d0 =~= d0);
        while remaining > 0 && self.recv.bytes.len() > 0
            invariant
                seg_bytes(self.recv.bytes@) <= u32::MAX,
                *self == (TcpConn {
                    delivered_segments: self.delivered_segments,
                    recv: RecvQueue { bytes: self.recv.bytes, ..old(self).recv },
                    ..*old(self)
                }),
                ({
                    let (d, rest, s) = split_at_budget(self.recv.bytes@, remaining as nat);
                    &&& delivered_contents(self.delivered_segments) + d == d0
                    &&& rest == rest0
                    &&& (split || s) == s0
                }),
                split ==> remaining == 0,
            decreases self.recv.bytes@.len(), remaining,
        {
            let ghost q = self.recv.bytes@;
            let ghost dl = delivered_contents(self.delivered_segments);
            let ghost b = remaining as nat;
            let front: InOrderSegment = self.recv.bytes[0];
            if front.len as u32 <= remaining {
                remaining = remaining - front.len as u32;
                let _ = self.recv.bytes.pop_front();
                self.delivered_segments.push(front);
                proof {
                    let (d, rest, s) = split_at_budget(
                        q.subrange(1, q.len() as int),
                        (b - front.len) as nat,
                    );
                    assert(dl.push(front) + d =~= dl + (seq![front] + d));
                }
            } else {
                let split_off: u16 = remaining as u16;
                let kept = InOrderSegment {
                    mbuf: front.mbuf,
                    offset: front.offset.saturating_add(split_off),
                    len: front.len.saturating_sub(split_off),
                };
                let taken = InOrderSegment {
                    mbuf: front.mbuf,
                    offset: front.offset,
                    len: split_off,
                };
                let _ = self.recv.bytes.pop_front();
                self.recv.bytes.push_front(kept);
                self.delivered_segments.push(taken);
                split = true;
                remaining = 0;
                proof {
                    let t = q.subrange(1, q.len() as int);
                    assert(self.recv.bytes@ =~= seq![kept] + t);
                    assert(self.recv.bytes@.subrange(1, self.recv.bytes@.len() as int) =~= t);
                    assert(dl.push(taken) + Seq::<InOrderSegment>::empty() =~= dl + seq![taken]);
                }
            }
        }
        assert(delivered_contents(self.delivered_segments) + Seq::<InOrderSegment>::empty()
            =~= delivered_contents(self.delivered_segments));
        (split, released)
    }

    /// Rebuilds the scatter-gather list from the delivered segments; returns
    /// their number and their length in bytes, both as words.
    pub fn materialize_iovecs(&mut self) -> (r: (u32, u32))
        ensures
            final(self).readable_scratch_iovecs@ == iovecs_of(
                delivered_contents(old(self).delivered_segments),
            ),
            r.0 == low32_of(delivered_contents(old(self).delivered_segments).len() as int),
            r.1 == min_int(
                seg_bytes(delivered_contents(old(self).delivered_segments)) as int,
                u32::MAX as int,
            ),
            *final(self) == (TcpConn {
                readable_scratch_iovecs: final(self).readable_scratch_iovecs,
                ..*old(self)
            }),
    {
        self.readable_scratch_iovecs.clear();
        let mut total_len: u32 = 0;
        let mut i: usize = 0;
        let ghost d = delivered_contents(self.delivered_segments);
        assert(d.take(0) =~= Seq::empty());
        assert(iovecs_of(d.take(0)) =~= Seq::empty());
        while i < self.delivered_segments.len()
            invariant
                d == delivered_contents(self.delivered_segments),
                i <= d.len(),
                self.readable_scratch_iovecs@ == iovecs_of(d.take(i as int)),
                total_len == min_int(seg_bytes(d.take(i as int)) as int, u32::MAX as int),
                *self == (TcpConn {
                    readable_scratch_iovecs: self.readable_scratch_iovecs,
                    ..*old(self)
                }),
            decreases d.len() - i,
        {
            let s: InOrderSegment = self.delivered_segments.at(i);
            self.readable_scratch_iovecs.push(
                DpdkNetIovec { base: s.mbuf, offset: s.offset, len: s.len as u32 },
            );
            total_len = total_len.saturating_add(s.len as u32);
            proof {
                assert(d.take(i + 1) =~= d.take(i as int) + seq![s]);
                lemma_seg_bytes_concat(d.take(i as int), seq![s]);
                assert(seq![s].subrange(1, 1) =~= Seq::empty());
                assert(seg_bytes(seq![s].subrange(1, 1)) == 0);
                assert(seg_bytes(seq![s]) == s.len);
            }
            i += 1;
            assert(self.readable_scratch_iovecs@ =~= iovecs_of(d.take(i as int)));
        }
        assert(d.take(i as int) =~= d);
        (low32_usize(self.readable_scratch_iovecs.len()), total_len)
    }

    /// Lets go of what the last poll delivered and returns the references.
    pub fn clear_delivered(&mut self) -> (r: Vec<Mbuf>)
        ensures
            r@ == seg_mbufs(delivered_contents(old(self).delivered_segments)),
            delivered_contents(final(self).delivered_segments) == Seq::<InOrderSegment>::empty(),
            final(self).readable_scratch_iovecs@ == Seq::<DpdkNetIovec>::empty(),
            *final(self) == (TcpConn {
                delivered_segments: final(self).delivered_segments,
                readable_scratch_iovecs: final(self).readable_scratch_iovecs,
                ..*old(self)
            }),
    {
        let released = self.delivered_mbufs();
        self.delivered_segments.clear();
        self.readable_scratch_iovecs.clear();
        released
    }
}

/// A probe that has been attributed is explained by no further block.
pub proof fn law_probe_attributed_once(
    p: RecentProbe,
    left: u32,
    right: u32,
    now_ns: u64,
    window_ns: int,
)
    ensures
        !(RecentProbe { attributed: true, ..p }).explained_by(left, right, now_ns, window_ns),
{
}

} // verus!
