//! Extended statistics of an ENA port.
use vstd::prelude::*;
use vstd::string::StringSliceAdditionalSpecFns;

use crate::counters::{Counters, EthCounters};

verus! {

/// The statistics that are read, in the order of their slots. The first five
/// are snapshots of allowances exceeded, the others accumulate in the driver.
pub const XSTAT_NAMES: [&'static str; 13] = [
    "bw_in_allowance_exceeded",
    "bw_out_allowance_exceeded",
    "pps_allowance_exceeded",
    "conntrack_allowance_exceeded",
    "linklocal_allowance_exceeded",
    "tx_q0_linearize",
    "tx_q0_doorbells",
    "tx_q0_missed_tx",
    "tx_q0_bad_req_id",
    "rx_q0_refill_partial",
    "rx_q0_bad_desc_num",
    "rx_q0_bad_req_id",
    "rx_q0_mbuf_alloc_fail",
];

/// The number under which the driver knows each statistic, slot by slot; none
/// for those it does not have.
#[derive(Debug, Clone)]
pub struct XstatMap {
    pub ids: Vec<Option<u64>>,
}

/// The counters with these values in the slots, in slot order.
pub open spec fn with_slots(c: EthCounters, v: Seq<u64>) -> EthCounters {
    EthCounters {
        eni_bw_in_allowance_exceeded: v[0],
        eni_bw_out_allowance_exceeded: v[1],
        eni_pps_allowance_exceeded: v[2],
        eni_conntrack_allowance_exceeded: v[3],
        eni_linklocal_allowance_exceeded: v[4],
        tx_q0_linearize: v[5],
        tx_q0_doorbells: v[6],
        tx_q0_missed_tx: v[7],
        tx_q0_bad_req_id: v[8],
        rx_q0_refill_partial: v[9],
        rx_q0_bad_desc_num: v[10],
        rx_q0_bad_req_id: v[11],
        rx_q0_mbuf_alloc_fail: v[12],
        ..c
    }
}

/// The counters with the allowance snapshots at zero and all else as it was.
pub open spec fn without_snapshots(c: EthCounters) -> EthCounters {
    EthCounters {
        eni_bw_in_allowance_exceeded: 0,
        eni_bw_out_allowance_exceeded: 0,
        eni_pps_allowance_exceeded: 0,
        eni_conntrack_allowance_exceeded: 0,
        eni_linklocal_allowance_exceeded: 0,
        ..c
    }
}

/// A failed read leaves every accumulating statistic at its last good value.
pub proof fn law_failed_read_keeps_totals(c: EthCounters)
    ensures
        ({
            let d = without_snapshots(c);
            &&& d.tx_q0_linearize == c.tx_q0_linearize
            &&& d.tx_q0_doorbells == c.tx_q0_doorbells
            &&& d.tx_q0_missed_tx == c.tx_q0_missed_tx
            &&& d.tx_q0_bad_req_id == c.tx_q0_bad_req_id
            &&& d.rx_q0_refill_partial == c.rx_q0_refill_partial
            &&& d.rx_q0_bad_desc_num == c.rx_q0_bad_desc_num
            &&& d.rx_q0_bad_req_id == c.rx_q0_bad_req_id
            &&& d.rx_q0_mbuf_alloc_fail == c.rx_q0_mbuf_alloc_fail
        }),
{
}

impl XstatMap {
    /// There is one slot per statistic.
    pub open spec fn wf(&self) -> bool {
        self.ids@.len() == 13
    }

    /// What the slots are set to: the value read where the driver has the
    /// statistic, else zero.
    pub open spec fn slots_from(&self, values: Seq<u64>) -> Seq<u64> {
        Seq::new(
            13,
            |i: int|
                if self.ids@[i] is Some {
                    values[i]
                } else {
                    0
                },
        )
    }

    /// Asks `lookup` for the number of each statistic, in slot order.
    pub fn from_lookup<F: Fn(&str) -> Option<u64>>(lookup: F) -> (r: Self)
        requires
            forall|i: int|
                0 <= i < 13 ==> call_requires(lookup, (#[trigger] XSTAT_NAMES[i],)),
        ensures
            r.wf(),
            forall|i: int|
                0 <= i < 13 ==> call_ensures(lookup, (XSTAT_NAMES[i],), #[trigger] r.ids@[i]),
    {
        let mut ids: Vec<Option<u64>> = Vec::new();
        let names = XSTAT_NAMES;
        let mut k: usize = 0;
        while k < 13
            invariant
                k <= 13,
                names == XSTAT_NAMES,
                ids@.len() == k,
                forall|i: int|
                    0 <= i < 13 ==> call_requires(lookup, (#[trigger] XSTAT_NAMES[i],)),
                forall|i: int|
                    0 <= i < k ==> call_ensures(lookup, (XSTAT_NAMES[i],), #[trigger] ids@[i]),
            decreases 13 - k,
        {
            let n: &str = names[k];
            assert(n == XSTAT_NAMES[k as int]);
            let id: Option<u64> = lookup(n);
            ids.push(id);
            k += 1;
        }
        XstatMap { ids }
    }

    fn pick(&self, values: &[u64], i: usize) -> (r: u64)
        requires
            self.wf(),
            values@.len() == 13,
            i < 13,
        ensures
            r == self.slots_from(values@)[i as int],
    {
        if self.ids[i].is_some() {
            values[i]
        } else {
            0
        }
    }

    /// Takes over a successful read.
    pub fn apply(&self, values: &[u64], counters: &mut Counters)
        requires
            self.wf(),
            values@.len() == 13,
        ensures
            *final(counters) == (Counters {
                eth: with_slots(old(counters).eth, self.slots_from(values@)),
                ..*old(counters)
            }),
    {
        counters.eth.eni_bw_in_allowance_exceeded = self.pick(values, 0);
        counters.eth.eni_bw_out_allowance_exceeded = self.pick(values, 1);
        counters.eth.eni_pps_allowance_exceeded = self.pick(values, 2);
        counters.eth.eni_conntrack_allowance_exceeded = self.pick(values, 3);
        counters.eth.eni_linklocal_allowance_exceeded = self.pick(values, 4);
        counters.eth.tx_q0_linearize = self.pick(values, 5);
        counters.eth.tx_q0_doorbells = self.pick(values, 6);
        counters.eth.tx_q0_missed_tx = self.pick(values, 7);
        counters.eth.tx_q0_bad_req_id = self.pick(values, 8);
        counters.eth.rx_q0_refill_partial = self.pick(values, 9);
        counters.eth.rx_q0_bad_desc_num = self.pick(values, 10);
        counters.eth.rx_q0_bad_req_id = self.pick(values, 11);
        counters.eth.rx_q0_mbuf_alloc_fail = self.pick(values, 12);
    }

    /// Accounts for a failed read: the snapshots are reset, what accumulates
    /// keeps its last good value.
    pub fn apply_on_error(&self, counters: &mut Counters)
        ensures
            *final(counters) == (Counters {
                eth: without_snapshots(old(counters).eth),
                ..*old(counters)
            }),
    {
        counters.eth.eni_bw_in_allowance_exceeded = 0;
        counters.eth.eni_bw_out_allowance_exceeded = 0;
        counters.eth.eni_pps_allowance_exceeded = 0;
        counters.eth.eni_conntrack_allowance_exceeded = 0;
        counters.eth.eni_linklocal_allowance_exceeded = 0;
    }
}

/// Takes over a read, successful or not.
pub fn apply_scrape_result(
    rc_matches_len: bool,
    values: &[u64],
    map: &XstatMap,
    counters: &mut Counters,
)
    requires
        map.wf(),
        values@.len() == 13,
    ensures
        *final(counters) == (Counters {
            eth: if rc_matches_len {
                with_slots(old(counters).eth, map.slots_from(values@))
            } else {
                without_snapshots(old(counters).eth)
            },
            ..*old(counters)
        }),
{
    if rc_matches_len {
        map.apply(values, counters);
    } else {
        map.apply_on_error(counters);
    }
}

/// How many of `n` name slots were filled, given what the driver returned: it
/// may return more than there was room for, or an error.
pub fn clamped_names_len(n: usize, got: i32) -> (r: usize)
    ensures
        r == (if got <= 0 {
            0
        } else if got < n {
            got as int
        } else {
            n as int
        }),
{
    if got <= 0 {
        0
    } else if (got as usize) < n {
        got as usize
    } else {
        n
    }
}

/// The text before the first zero byte.
pub open spec fn c_text(raw: Seq<u8>) -> Seq<u8>
    decreases raw.len(),
{
    if raw.len() == 0 || raw[0] == 0 {
        Seq::empty()
    } else {
        seq![raw[0]] + c_text(raw.subrange(1, raw.len() as int))
    }
}

fn c_text_is(raw: &[u8; 64], wanted: &[u8]) -> (r: bool)
    ensures
        r == (c_text(raw@) == wanted@),
{
    let mut i: usize = 0;
    let ghost head: Seq<u8> = Seq::empty();
    assert(raw@.subrange(0, 64) =~= raw@);
    assert(Seq::<u8>::empty() + c_text(raw@) =~= c_text(raw@));
    while i < 64 && raw[i] != 0
        invariant
            i <= 64,
            i <= wanted@.len(),
            raw@.take(i as int) == wanted@.take(i as int),
            c_text(raw@) == raw@.take(i as int) + c_text(raw@.subrange(i as int, 64)),
        decreases 64 - i,
    {
        let ghost rest = raw@.subrange(i as int, 64);
        proof {
            assert(rest[0] == raw@[i as int]);
            assert(rest.subrange(1, rest.len() as int) =~= raw@.subrange(i + 1, 64));
            assert(raw@.take(i as int) + (seq![rest[0]] + c_text(raw@.subrange(i + 1, 64)))
                =~= raw@.take(i + 1) + c_text(raw@.subrange(i + 1, 64)));
        }
        if i >= wanted.len() {
            assert(c_text(raw@).len() > wanted@.len());
            return false;
        }
        if raw[i] != wanted[i] {
            assert(c_text(raw@)[i as int] == raw@[i as int]);
            return false;
        }
        assert(raw@.take(i + 1) =~= raw@.take(i as int).push(raw@[i as int]));
        assert(wanted@.take(i + 1) =~= wanted@.take(i as int).push(wanted@[i as int]));
        i += 1;
    }
    proof {
        let rest = raw@.subrange(i as int, 64);
        if rest.len() > 0 {
            assert(rest[0] == raw@[i as int]);
        }
        assert(c_text(rest) =~= Seq::empty());
        assert(c_text(raw@) =~= raw@.take(i as int));
        if i == wanted@.len() {
            assert(wanted@.take(i as int) =~= wanted@);
        }
    }
    i == wanted.len()
}

/// Name slot `i` holds the statistic `k`.
pub open spec fn names_stat(names: Seq<[u8; 64]>, i: int, k: int) -> bool {
    c_text(names[i]@) == XSTAT_NAMES[k].spec_bytes()
}

/// The number of statistic `k` among the first `n` names: that of the first
/// slot that holds it.
pub open spec fn is_stat_id(names: Seq<[u8; 64]>, n: int, k: int, id: Option<u64>) -> bool {
    match id {
        Some(i) => {
            &&& i < n
            &&& names_stat(names, i as int, k)
            &&& forall|j: int| 0 <= j < i ==> !#[trigger] names_stat(names, j, k)
        },
        None => forall|j: int| 0 <= j < n ==> !#[trigger] names_stat(names, j, k),
    }
}

/// Finds the number of each statistic among the names that the driver filled
/// in, where it announced `probed` names and then returned `got`.
pub fn resolve_xstat_ids(probed: i32, names: &[[u8; 64]], got: i32) -> (r: XstatMap)
    ensures
        r.wf(),
        forall|k: int|
            0 <= k < 13 ==> if probed <= 0 || got <= 0 {
                #[trigger] r.ids@[k] is None
            } else {
                is_stat_id(
                    names@,
                    if got < names@.len() {
                        got as int
                    } else {
                        names@.len() as int
                    },
                    k,
                    r.ids@[k],
                )
            },
{
    let n: usize = if probed <= 0 {
        0
    } else {
        clamped_names_len(names.len(), got)
    };
    let wanted = XSTAT_NAMES;
    let mut ids: Vec<Option<u64>> = Vec::new();
    let mut k: usize = 0;
    while k < 13
        invariant
            k <= 13,
            n <= names@.len(),
            wanted == XSTAT_NAMES,
            ids@.len() == k,
            forall|j: int| 0 <= j < k ==> is_stat_id(names@, n as int, j, #[trigger] ids@[j]),
        decreases 13 - k,
    {
        let name: &str = wanted[k];
        let w: &[u8] = name.as_bytes();
        let mut found: Option<u64> = None;
        let mut i: usize = 0;
        assert(w@ == XSTAT_NAMES[k as int].spec_bytes());
        while i < n && found.is_none()
            invariant
                i <= n,
                n <= names@.len(),
                w@ == XSTAT_NAMES[k as int].spec_bytes(),
                match found {
                    Some(f) => is_stat_id(names@, n as int, k as int, found),
                    None => forall|j: int|
                        0 <= j < i ==> !#[trigger] names_stat(names@, j, k as int),
                },
            decreases n - i,
        {
            if c_text_is(&names[i], w) {
                assert(names_stat(names@, i as int, k as int));
                found = Some(i as u64);
            } else {
                assert(!names_stat(names@, i as int, k as int));
            }
            i += 1;
        }
        ids.push(found);
        k += 1;
    }
    XstatMap { ids }
}

/// The numbers to read, slot by slot, the missing ones left out.
pub open spec fn query_of(ids: Seq<Option<u64>>) -> Seq<u64>
    decreases ids.len(),
{
    if ids.len() == 0 {
        Seq::empty()
    } else {
        match ids.last() {
            Some(id) => query_of(ids.drop_last()).push(id),
            None => query_of(ids.drop_last()),
        }
    }
}

/// The numbers to read.
pub fn xstat_query(map: &XstatMap) -> (r: Vec<u64>)
    ensures
        r@ == query_of(map.ids@),
{
    let mut out: Vec<u64> = Vec::new();
    let mut i: usize = 0;
    assert(map.ids@.take(0) =~= Seq::empty());
    while i < map.ids.len()
        invariant
            i <= map.ids@.len(),
            out@ == query_of(map.ids@.take(i as int)),
        decreases map.ids@.len() - i,
    {
        assert(map.ids@.take(i + 1).drop_last() =~= map.ids@.take(i as int));
        assert(map.ids@.take(i + 1).last() == map.ids@[i as int]);
        if let Some(id) = map.ids[i] {
            out.push(id);
        }
        i += 1;
    }
    assert(map.ids@.take(i as int) =~= map.ids@);
    out
}

/// What a read of the query gives each slot: the values in order, zero where
/// the driver does not have the statistic.
pub open spec fn scattered(ids: Seq<Option<u64>>, got: Seq<u64>) -> Seq<u64> {
    Seq::new(
        ids.len(),
        |i: int|
            if ids[i] is Some {
                got[query_of(ids.take(i)).len() as int]
            } else {
                0
            },
    )
}

proof fn lemma_query_prefix(ids: Seq<Option<u64>>, n: int)
    requires
        0 <= n <= ids.len(),
    ensures
        query_of(ids.take(n)).len() <= query_of(ids).len(),
        n < ids.len() && ids[n] is Some ==> query_of(ids.take(n)).len() < query_of(ids).len(),
    decreases ids.len() - n,
{
    if n < ids.len() {
        lemma_query_prefix(ids, n + 1);
        assert(ids.take(n + 1).drop_last() =~= ids.take(n));
        assert(ids.take(n + 1).last() == ids[n]);
    } else {
        assert(ids.take(n) =~= ids);
    }
}

/// Takes over the driver's answer to the query: `rc` is what it returned and
/// `got` what it wrote. The read succeeded if all was written; without a query
/// there is nothing to fail.
pub fn scrape(map: &XstatMap, rc: i32, got: &[u64], counters: &mut Counters)
    requires
        map.wf(),
        got@.len() == query_of(map.ids@).len(),
    ensures
        *final(counters) == (Counters {
            eth: if query_of(map.ids@).len() == 0 || rc == query_of(map.ids@).len() {
                with_slots(old(counters).eth, scattered(map.ids@, got@))
            } else {
                without_snapshots(old(counters).eth)
            },
            ..*old(counters)
        }),
{
    let ok: bool = got.len() == 0 || (rc >= 0 && rc as usize == got.len());
    let mut values: Vec<u64> = Vec::new();
    let mut i: usize = 0;
    let mut k: usize = 0;
    assert(map.ids@.take(0) =~= Seq::empty());
    while i < 13
        invariant
            map.wf(),
            got@.len() == query_of(map.ids@).len(),
            i <= 13,
            values@.len() == i,
            k == query_of(map.ids@.take(i as int)).len(),
            forall|j: int|
                0 <= j < i ==> #[trigger] values@[j] == scattered(map.ids@, got@)[j],
        decreases 13 - i,
    {
        proof {
            lemma_query_prefix(map.ids@, i as int);
            assert(map.ids@.take(i + 1).drop_last() =~= map.ids@.take(i as int));
            assert(map.ids@.take(i + 1).last() == map.ids@[i as int]);
        }
        if map.ids[i].is_some() {
            values.push(got[k]);
            k += 1;
        } else {
            values.push(0);
        }
        i += 1;
    }
    apply_scrape_result(ok, values.as_slice(), map, counters);
    proof {
        assert(values@ =~= scattered(map.ids@, got@));
        assert(map.slots_from(values@) =~= values@);
    }
}

} // verus!
