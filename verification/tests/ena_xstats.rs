use dpdk_net_core::counters::Counters;
use dpdk_net_core::ena_xstats::{
    apply_scrape_result, clamped_names_len, XstatMap, XSTAT_NAMES,
};


#[test]
fn from_lookup_collects_in_name_order() {
    let map = XstatMap::from_lookup(|n| match n {
        "bw_in_allowance_exceeded" => Some(100),
        "tx_q0_doorbells" => Some(200),
        _ => None,
    });
    assert_eq!(map.ids[0], Some(100));
    assert_eq!(map.ids[6], Some(200));
    assert_eq!(map.ids[1], None);
}

#[test]
fn apply_writes_each_counter_in_name_order() {
    let map = XstatMap::from_lookup(|_| Some(0));
    let values: Vec<u64> = (1u64..=13).collect();
    let mut counters = Counters::new();
    map.apply(&values, &mut counters);
    assert_eq!(counters.eth.eni_bw_in_allowance_exceeded, 1);
    assert_eq!(counters.eth.tx_q0_doorbells, 7);
    assert_eq!(counters.eth.rx_q0_mbuf_alloc_fail, 13);
}

#[test]
fn clamped_names_len_normal_case() {
    assert_eq!(clamped_names_len(80, 80), 80);
}

#[test]
fn clamped_names_len_pmd_grew_between_calls() {
    assert_eq!(clamped_names_len(80, 84), 80);
}

#[test]
fn clamped_names_len_pmd_shrank() {
    assert_eq!(clamped_names_len(80, 76), 76);
}

#[test]
fn clamped_names_len_zero() {
    assert_eq!(clamped_names_len(80, 0), 0);
}

#[test]
fn clamped_names_len_negative_error() {
    assert_eq!(clamped_names_len(80, -1), 0);
}

#[test]
fn clamped_slice_does_not_panic_when_pmd_grew() {
    let n: usize = 80;
    let names: Vec<u8> = vec![0; n];
    let got: i32 = 84;
    let slice = &names[..clamped_names_len(n, got)];
    assert_eq!(slice.len(), 80);
}

#[test]
fn apply_writes_zero_for_unadvertised_names() {
    let map = XstatMap::from_lookup(|n| {
        if XSTAT_NAMES.iter().position(|x| x == &n).is_some_and(|i| i < 5) {
            Some(0)
        } else {
            None
        }
    });
    let mut counters = Counters::new();
    counters.eth.tx_q0_doorbells = 999;
    let values = vec![1u64; 13];
    map.apply(&values, &mut counters);
    assert_eq!(counters.eth.eni_bw_in_allowance_exceeded, 1);
    assert_eq!(counters.eth.tx_q0_doorbells, 0);
}

#[test]
fn apply_on_error_preserves_cumulative_counters() {
    let map = XstatMap::from_lookup(|_| Some(0));
    let mut counters = Counters::new();

    counters.eth.tx_q0_linearize = 42;
    counters.eth.tx_q0_doorbells = 1_000_000;
    counters.eth.tx_q0_missed_tx = 7;
    counters.eth.tx_q0_bad_req_id = 3;
    counters.eth.rx_q0_refill_partial = 128;
    counters.eth.rx_q0_bad_desc_num = 5;
    counters.eth.rx_q0_bad_req_id = 9;
    counters.eth.rx_q0_mbuf_alloc_fail = 17;

    counters.eth.eni_bw_in_allowance_exceeded = 500;

    let values = vec![0u64; 13];
    apply_scrape_result(false, &values, &map, &mut counters);

    assert_eq!(
        counters.eth.eni_bw_in_allowance_exceeded,
        0,
        "allowance snapshot should be reset on failed scrape",
    );

    assert_eq!(
        counters.eth.tx_q0_linearize,
        42,
    );
    assert_eq!(
        counters.eth.tx_q0_doorbells,
        1_000_000,
        "tx_q0_doorbells must keep its value when a read fails",
    );
    assert_eq!(counters.eth.tx_q0_missed_tx, 7);
    assert_eq!(counters.eth.tx_q0_bad_req_id, 3);
    assert_eq!(counters.eth.rx_q0_refill_partial, 128);
    assert_eq!(counters.eth.rx_q0_bad_desc_num, 5);
    assert_eq!(counters.eth.rx_q0_bad_req_id, 9);
    assert_eq!(counters.eth.rx_q0_mbuf_alloc_fail, 17);
}

#[test]
fn apply_scrape_result_success_writes_all_slots() {
    let map = XstatMap::from_lookup(|_| Some(0));
    let mut counters = Counters::new();
    counters.eth.tx_q0_doorbells = 999;

    let values: Vec<u64> = (1u64..=13).collect();
    apply_scrape_result(true, &values, &map, &mut counters);

    assert_eq!(
        counters.eth.eni_bw_in_allowance_exceeded,
        1,
    );
    assert_eq!(
        counters.eth.tx_q0_doorbells,
        7,
        "success path must overwrite prior cumulative value",
    );
    assert_eq!(
        counters.eth.rx_q0_mbuf_alloc_fail,
        13,
    );
}
