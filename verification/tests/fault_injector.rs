use dpdk_net_core::fault_injector::{
    fault_entries, FaultConfig, FaultConfigParseError, FaultEntry, FaultInjector, FaultKind,
};

fn parse(spec: &str) -> Result<FaultConfig, FaultConfigParseError> {
    let entries = fault_entries(spec);
    let bits: Vec<Option<u32>> = entries
        .iter()
        .map(|e| match e {
            FaultEntry::Rate { value, .. } => value.parse::<f32>().ok().map(f32::to_bits),
            _ => None,
        })
        .collect();
    FaultConfig::parse(&entries, &bits)
}

#[test]
fn parse_all_keys() {
    let cfg = parse("drop=0.01,dup=0.005,reorder=0.002,corrupt=0.001,seed=42")
        .expect("spec parses");
    assert_eq!(f32::from_bits(cfg.drop_rate), 0.01_f32);
    assert_eq!(f32::from_bits(cfg.dup_rate), 0.005_f32);
    assert_eq!(f32::from_bits(cfg.reorder_rate), 0.002_f32);
    assert_eq!(f32::from_bits(cfg.corrupt_rate), 0.001_f32);
    assert_eq!(cfg.seed, 42);
}

#[test]
fn parse_empty_is_default() {
    assert_eq!(parse("").unwrap(), FaultConfig::default());
    assert_eq!(parse("   ").unwrap(), FaultConfig::default());
}

#[test]
fn rate_out_of_range_rejected() {
    let err = parse("drop=1.5").unwrap_err();
    assert_eq!(
        err,
        FaultConfigParseError::RateOutOfRange {
            key: "drop".to_string(),
            value: "1.5".to_string(),
        }
    );
    let err = parse("dup=-0.1").unwrap_err();
    assert!(matches!(err, FaultConfigParseError::RateOutOfRange { .. }));
}

#[test]
fn unknown_key_rejected() {
    let err = parse("foo=0.1").unwrap_err();
    assert_eq!(err, FaultConfigParseError::UnknownKey("foo".to_string()));
}

#[test]
fn entries_are_read_from_the_left() {
    let cfg = parse(" drop = 0.5 , seed=7,drop=1.0,,").unwrap();
    assert_eq!(f32::from_bits(cfg.drop_rate), 1.0);
    assert_eq!(cfg.seed, 7);
    assert_eq!(f32::from_bits(cfg.dup_rate), 0.0);
    assert!(parse("drop=1.5,foo=1").unwrap_err().message().contains("drop"));
}

#[test]
fn bad_entries_have_their_errors() {
    let bad = |key: &str, value: &str| FaultConfigParseError::InvalidValue {
        key: key.to_string(),
        value: value.to_string(),
    };
    assert_eq!(parse("drop").unwrap_err(), bad("drop", ""));
    assert_eq!(parse("seed=x").unwrap_err(), bad("seed", "x"));
    assert_eq!(parse("dup=abc").unwrap_err(), bad("dup", "abc"));
    assert_eq!(bad("dup", "abc").message(), "invalid value for dup: abc");
    assert!(matches!(parse("dup=NaN"), Err(FaultConfigParseError::RateOutOfRange { .. })));
    assert!(parse("reorder=-0.0").is_ok());
    assert!(parse("corrupt=1.0").is_ok());
    assert!(parse("corrupt=1.0000001").is_err());
}

#[test]
fn a_seed_of_zero_takes_the_other_one() {
    let cfg = parse("dup=0.25").unwrap();
    let i = FaultInjector::new(cfg, 99);
    assert_eq!(i.rng.seed, 99);
    assert_eq!(*i.cfg(), cfg);
    assert!(i.reorder_ring.is_none());
    let i = FaultInjector::new(parse("seed=5").unwrap(), 99);
    assert_eq!(i.rng.seed, 5);
}

#[test]
fn the_random_numbers_follow_the_seed() {
    let a = FaultInjector::new(parse("seed=5").unwrap(), 1);
    let b = FaultInjector::new(parse("seed=5").unwrap(), 2);
    let c = FaultInjector::new(parse("seed=6").unwrap(), 1);
    assert_eq!(a.rng.rng, b.rng.rng);
    assert_ne!(a.rng.rng, c.rng.rng);
}

#[test]
fn keys_name_their_rates() {
    let e = fault_entries("reorder=0.1");
    assert!(matches!(
        &e[0],
        FaultEntry::Rate { kind: FaultKind::Reorder, value } if value == "0.1"
    ));
}
