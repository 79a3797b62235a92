//! Faults injected into received traffic: their configuration.
use arrayvec::ArrayVec;
use rand::rngs::SmallRng;
use rand::SeedableRng;
use vstd::prelude::*;
use vstd::string::StringExecFns;

use crate::mempool::Mbuf;
use crate::text::{
    chars_eq, chars_of, find_sep, number_in, parse_number, parts_of, piece, run_without,
    split_at_sep, string_of, texts, trim, trimmed,
};

verus! {

/// How often each fault strikes. A rate is the bit pattern of a
/// single-precision number between zero and one. Seed zero stands for a seed
/// chosen at construction.
#[derive(Clone, Copy, Debug, PartialEq, Eq, Structural)]
pub struct FaultConfig {
    /// A frame is dropped.
    pub drop_rate: u32,
    /// A frame is duplicated.
    pub dup_rate: u32,
    /// A frame is held back behind the next one.
    pub reorder_rate: u32,
    /// A byte of a frame is changed.
    pub corrupt_rate: u32,
    /// Seed of the random numbers.
    pub seed: u64,
}

impl Default for FaultConfig {
    fn default() -> (r: Self)
        ensures
            r == no_faults(),
    {
        FaultConfig { drop_rate: 0, dup_rate: 0, reorder_rate: 0, corrupt_rate: 0, seed: 0 }
    }
}

/// No fault ever strikes.
pub open spec fn no_faults() -> FaultConfig {
    FaultConfig { drop_rate: 0, dup_rate: 0, reorder_rate: 0, corrupt_rate: 0, seed: 0 }
}

/// Why a configuration text was refused.
#[derive(Debug, PartialEq)]
pub enum FaultConfigParseError {
    /// The key is none of those known.
    UnknownKey(String),
    /// The value is missing, or no number.
    InvalidValue { key: String, value: String },
    /// The rate does not lie between zero and one.
    RateOutOfRange { key: String, value: String },
}

impl FaultConfigParseError {
    /// The two errors read the same.
    pub open spec fn same(&self, other: &Self) -> bool {
        match (self, other) {
            (
                FaultConfigParseError::UnknownKey(a),
                FaultConfigParseError::UnknownKey(b),
            ) => a@ == b@,
            (
                FaultConfigParseError::InvalidValue { key: a, value: v },
                FaultConfigParseError::InvalidValue { key: b, value: w },
            ) => a@ == b@ && v@ == w@,
            (
                FaultConfigParseError::RateOutOfRange { key: a, value: v },
                FaultConfigParseError::RateOutOfRange { key: b, value: w },
            ) => a@ == b@ && v@ == w@,
            _ => false,
        }
    }

    fn copied(&self) -> (r: Self)
        ensures
            r.same(self),
    {
        match self {
            FaultConfigParseError::UnknownKey(k) => FaultConfigParseError::UnknownKey(k.clone()),
            FaultConfigParseError::InvalidValue { key, value } => {
                FaultConfigParseError::InvalidValue { key: key.clone(), value: value.clone() }
            },
            FaultConfigParseError::RateOutOfRange { key, value } => {
                FaultConfigParseError::RateOutOfRange { key: key.clone(), value: value.clone() }
            },
        }
    }

    /// The error in words.
    pub open spec fn text(&self) -> Seq<char> {
        match self {
            FaultConfigParseError::UnknownKey(k) => "unknown fault-injector key: "@ + k@,
            FaultConfigParseError::InvalidValue { key, value } => "invalid value for "@ + key@
                + ": "@ + value@,
            FaultConfigParseError::RateOutOfRange { key, value } => "rate out of range for "@
                + key@ + ": "@ + value@,
        }
    }

    /// The error in words.
    pub fn message(&self) -> (r: String)
        ensures
            r@ == self.text(),
    {
        match self {
            FaultConfigParseError::UnknownKey(k) => {
                let mut m: String = String::from_str("unknown fault-injector key: ");
                m.append(k.as_str());
                m
            },
            FaultConfigParseError::InvalidValue { key, value } => {
                let mut m: String = String::from_str("invalid value for ");
                m.append(key.as_str());
                m.append(": ");
                m.append(value.as_str());
                m
            },
            FaultConfigParseError::RateOutOfRange { key, value } => {
                let mut m: String = String::from_str("rate out of range for ");
                m.append(key.as_str());
                m.append(": ");
                m.append(value.as_str());
                m
            },
        }
    }
}

/// The faults that have a rate.
#[derive(Clone, Copy, Debug, PartialEq, Eq, Structural)]
pub enum FaultKind {
    Drop,
    Dup,
    Reorder,
    Corrupt,
}

impl FaultKind {
    /// The key that sets the rate.
    pub open spec fn key(self) -> Seq<char> {
        match self {
            FaultKind::Drop => "drop"@,
            FaultKind::Dup => "dup"@,
            FaultKind::Reorder => "reorder"@,
            FaultKind::Corrupt => "corrupt"@,
        }
    }

    fn name(self) -> (r: &'static str)
        ensures
            r@ == self.key(),
    {
        match self {
            FaultKind::Drop => "drop",
            FaultKind::Dup => "dup",
            FaultKind::Reorder => "reorder",
            FaultKind::Corrupt => "corrupt",
        }
    }
}

/// One entry of a configuration text.
#[derive(Debug)]
pub enum FaultEntry {
    /// A rate, still as text.
    Rate { kind: FaultKind, value: String },
    Seed(u64),
    Bad(FaultConfigParseError),
}

/// The entries of a configuration text: what stands between commas, without
/// the space around it and without the empty ones.
pub open spec fn entries_of(spec: Seq<char>) -> Seq<Seq<char>> {
    nonempty_trimmed(parts_of(trimmed(spec), ','))
}

/// The parts without the space around them and without the empty ones.
pub open spec fn nonempty_trimmed(parts: Seq<Seq<char>>) -> Seq<Seq<char>>
    decreases parts.len(),
{
    if parts.len() == 0 {
        Seq::empty()
    } else if trimmed(parts.last()).len() == 0 {
        nonempty_trimmed(parts.drop_last())
    } else {
        nonempty_trimmed(parts.drop_last()).push(trimmed(parts.last()))
    }
}

/// What an entry's key is: all before the first equals sign.
pub open spec fn key_of(e: Seq<char>) -> Seq<char> {
    trimmed(e.subrange(0, run_without(e, '=')))
}

/// What an entry's value is: all behind the first equals sign.
pub open spec fn value_of(e: Seq<char>) -> Seq<char> {
    trimmed(e.subrange(run_without(e, '=') + 1, e.len() as int))
}

/// `r` is what the entry `e` says.
pub open spec fn entry_says(e: Seq<char>, r: FaultEntry) -> bool {
    if run_without(e, '=') == e.len() {
        r matches FaultEntry::Bad(FaultConfigParseError::InvalidValue { key, value }) && key@ == e
            && value@.len() == 0
    } else if key_of(e) == "drop"@ {
        r matches FaultEntry::Rate { kind: FaultKind::Drop, value } && value@ == value_of(e)
    } else if key_of(e) == "dup"@ {
        r matches FaultEntry::Rate { kind: FaultKind::Dup, value } && value@ == value_of(e)
    } else if key_of(e) == "reorder"@ {
        r matches FaultEntry::Rate { kind: FaultKind::Reorder, value } && value@ == value_of(e)
    } else if key_of(e) == "corrupt"@ {
        r matches FaultEntry::Rate { kind: FaultKind::Corrupt, value } && value@ == value_of(e)
    } else if key_of(e) == "seed"@ {
        match number_in(value_of(e), 10, u64::MAX as int) {
            Some(n) => r == FaultEntry::Seed(n as u64),
            None => r matches FaultEntry::Bad(
                FaultConfigParseError::InvalidValue { key, value },
            ) && key@ == "seed"@ && value@ == value_of(e),
        }
    } else {
        r matches FaultEntry::Bad(FaultConfigParseError::UnknownKey(key)) && key@ == key_of(e)
    }
}

fn key_is(key: &[char], name: &str) -> (r: bool)
    ensures
        r == (key@ == name@),
{
    let n = chars_of(name);
    chars_eq(key, n.as_slice())
}

fn read_entry(e: &[char]) -> (r: FaultEntry)
    ensures
        entry_says(e@, r),
{
    let n: usize = find_sep(e, 0, '=');
    assert(e@.subrange(0, e@.len() as int) =~= e@);
    if n == e.len() {
        return FaultEntry::Bad(
            FaultConfigParseError::InvalidValue { key: string_of(e), value: String::new() },
        );
    }
    let before = piece(e, 0, n);
    let behind = piece(e, n + 1, e.len());
    let key = trim(before.as_slice());
    let value = trim(behind.as_slice());
    let k: &[char] = key.as_slice();
    let v: &[char] = value.as_slice();
    if key_is(k, "drop") {
        return FaultEntry::Rate { kind: FaultKind::Drop, value: string_of(v) };
    }
    if key_is(k, "dup") {
        return FaultEntry::Rate { kind: FaultKind::Dup, value: string_of(v) };
    }
    if key_is(k, "reorder") {
        return FaultEntry::Rate { kind: FaultKind::Reorder, value: string_of(v) };
    }
    if key_is(k, "corrupt") {
        return FaultEntry::Rate { kind: FaultKind::Corrupt, value: string_of(v) };
    }
    if key_is(k, "seed") {
        return match parse_number(v, 10, u64::MAX) {
            Some(n) => FaultEntry::Seed(n),
            None => FaultEntry::Bad(
                FaultConfigParseError::InvalidValue { key: string_of(k), value: string_of(v) },
            ),
        };
    }
    FaultEntry::Bad(FaultConfigParseError::UnknownKey(string_of(k)))
}

/// Reads the entries of a configuration text such as
/// `drop=0.01,dup=0.005,reorder=0.002,corrupt=0.001,seed=42`.
pub fn fault_entries(spec: &str) -> (r: Vec<FaultEntry>)
    ensures
        r@.len() == entries_of(spec@).len(),
        forall|i: int|
            0 <= i < r@.len() ==> entry_says(entries_of(spec@)[i], #[trigger] r@[i]),
{
    let chars = chars_of(spec);
    let whole = trim(chars.as_slice());
    let parts = split_at_sep(whole.as_slice(), ',');
    let ghost all = texts(parts@);
    let mut out: Vec<FaultEntry> = Vec::new();
    let mut i: usize = 0;
    while i < parts.len()
        invariant
            i <= parts@.len(),
            all == texts(parts@),
            out@.len() == nonempty_trimmed(all.take(i as int)).len(),
            forall|j: int|
                0 <= j < out@.len() ==> entry_says(
                    nonempty_trimmed(all.take(i as int))[j],
                    #[trigger] out@[j],
                ),
        decreases parts@.len() - i,
    {
        proof {
            assert(all.take(i + 1).drop_last() =~= all.take(i as int));
            assert(all.take(i + 1).last() == parts@[i as int]@);
        }
        let e = trim(parts[i].as_slice());
        if e.len() > 0 {
            out.push(read_entry(e.as_slice()));
        }
        i += 1;
    }
    assert(all.take(i as int) =~= all);
    out
}

/// The bit pattern of a single-precision number lies between zero and one:
/// positive patterns grow with their numbers, that of one is the last, and
/// negative zero counts as zero.
pub open spec fn is_rate(bits: u32) -> bool {
    bits <= 0x3f80_0000 || bits == 0x8000_0000
}

/// An entry can be applied, given the bit pattern that its rate was read as.
pub open spec fn entry_good(e: FaultEntry, bits: Option<u32>) -> bool {
    match e {
        FaultEntry::Rate { kind, value } => bits is Some && is_rate(bits->0),
        FaultEntry::Seed(n) => true,
        FaultEntry::Bad(b) => false,
    }
}

/// The configuration with one entry applied.
pub open spec fn with_entry(c: FaultConfig, e: FaultEntry, bits: Option<u32>) -> FaultConfig {
    match e {
        FaultEntry::Rate { kind, value } => match kind {
            FaultKind::Drop => FaultConfig { drop_rate: bits->0, ..c },
            FaultKind::Dup => FaultConfig { dup_rate: bits->0, ..c },
            FaultKind::Reorder => FaultConfig { reorder_rate: bits->0, ..c },
            FaultKind::Corrupt => FaultConfig { corrupt_rate: bits->0, ..c },
        },
        FaultEntry::Seed(n) => FaultConfig { seed: n, ..c },
        FaultEntry::Bad(b) => c,
    }
}

/// The configuration that the entries make, one after the other.
pub open spec fn config_of(entries: Seq<FaultEntry>, bits: Seq<Option<u32>>) -> FaultConfig
    decreases entries.len(),
{
    if entries.len() == 0 {
        no_faults()
    } else {
        with_entry(
            config_of(entries.drop_last(), bits.drop_last()),
            entries.last(),
            bits.last(),
        )
    }
}

/// `err` is why the entry cannot be applied.
pub open spec fn entry_error(
    e: FaultEntry,
    bits: Option<u32>,
    err: FaultConfigParseError,
) -> bool {
    match e {
        FaultEntry::Rate { kind, value: v } => match bits {
            None => err matches FaultConfigParseError::InvalidValue { key, value } && key@
                == kind.key() && value@ == v@,
            Some(b) => !is_rate(b) && (err matches FaultConfigParseError::RateOutOfRange {
                key,
                value,
            } && key@ == kind.key() && value@ == v@),
        },
        FaultEntry::Seed(n) => false,
        FaultEntry::Bad(b) => err.same(&b),
    }
}

/// The entries before `i` can be applied.
pub open spec fn good_up_to(entries: Seq<FaultEntry>, bits: Seq<Option<u32>>, i: int) -> bool {
    forall|j: int| 0 <= j < i ==> entry_good(#[trigger] entries[j], bits[j])
}

impl FaultConfig {
    /// The configuration that the entries make, where `bits` gives for each
    /// rate the bit pattern that its text was read as, none for a text that is
    /// no number. The first entry that cannot be applied decides the error.
    pub fn parse(entries: &[FaultEntry], bits: &[Option<u32>]) -> (r: Result<
        Self,
        FaultConfigParseError,
    >)
        requires
            entries@.len() == bits@.len(),
        ensures
            match r {
                Ok(c) => good_up_to(entries@, bits@, entries@.len() as int) && c == config_of(
                    entries@,
                    bits@,
                ),
                Err(err) => exists|i: int|
                    0 <= i < entries@.len() && good_up_to(entries@, bits@, i) && entry_error(
                        #[trigger] entries@[i],
                        bits@[i],
                        err,
                    ),
            },
    {
        let mut cfg = FaultConfig::default();
        let mut i: usize = 0;
        while i < entries.len()
            invariant
                i <= entries@.len(),
                entries@.len() == bits@.len(),
                good_up_to(entries@, bits@, i as int),
                cfg == config_of(entries@.take(i as int), bits@.take(i as int)),
            decreases entries@.len() - i,
        {
            proof {
                assert(entries@.take(i + 1).drop_last() =~= entries@.take(i as int));
                assert(bits@.take(i + 1).drop_last() =~= bits@.take(i as int));
            }
            match &entries[i] {
                FaultEntry::Rate { kind, value } => {
                    let k: FaultKind = *kind;
                    let b: u32 = match bits[i] {
                        Some(b) => b,
                        None => {
                            let err = FaultConfigParseError::InvalidValue {
                                key: String::from_str(k.name()),
                                value: value.clone(),
                            };
                            assert(entry_error(entries@[i as int], bits@[i as int], err));
                            return Err(err);
                        },
                    };
                    if !(b <= 0x3f80_0000 || b == 0x8000_0000) {
                        let err = FaultConfigParseError::RateOutOfRange {
                            key: String::from_str(k.name()),
                            value: value.clone(),
                        };
                        assert(entry_error(entries@[i as int], bits@[i as int], err));
                        return Err(err);
                    }
                    match k {
                        FaultKind::Drop => { cfg.drop_rate = b; },
                        FaultKind::Dup => { cfg.dup_rate = b; },
                        FaultKind::Reorder => { cfg.reorder_rate = b; },
                        FaultKind::Corrupt => { cfg.corrupt_rate = b; },
                    }
                },
                FaultEntry::Seed(n) => {
                    cfg.seed = *n;
                },
                FaultEntry::Bad(b) => {
                    let err = b.copied();
                    assert(entry_error(entries@[i as int], bits@[i as int], err));
                    return Err(err);
                },
            }
            i += 1;
        }
        assert(entries@.take(i as int) =~= entries@);
        assert(bits@.take(i as int) =~= bits@);
        Ok(cfg)
    }
}

/// `rand::rngs::SmallRng`, carried as it is: nothing is claimed of what is
/// inside.
#[verifier::external_type_specification]
#[verifier::external_body]
pub struct ExSmallRng(SmallRng);

/// `arrayvec::ArrayVec`, carried as it is: nothing is claimed of what is
/// inside.
#[verifier::external_type_specification]
#[verifier::external_body]
#[verifier::reject_recursive_types(T)]
pub struct ExArrayVec<T, const CAP: usize>(ArrayVec<T, CAP>);

/// Random numbers, and the seed that they were started from.
pub struct SeededRng {
    pub seed: u64,
    pub rng: SmallRng,
}

/// `SmallRng::seed_from_u64`: a generator that was started from `seed`, which
/// is kept beside it. Which numbers it yields depends on the machine's word
/// size and is left open.
#[verifier::external_body]
fn seeded(seed: u64) -> (r: SeededRng)
    ensures
        r.seed == seed,
{
    SeededRng { seed, rng: SmallRng::seed_from_u64(seed) }
}

/// Injects the configured faults.
pub struct FaultInjector {
    pub cfg: FaultConfig,
    pub rng: SeededRng,
    /// Frames held back, once the first one was.
    pub reorder_ring: Option<ArrayVec<Mbuf, 16>>,
}

impl FaultInjector {
    /// An injector whose random numbers start from the configured seed, or
    /// from `boot_nonce_seed` where that is zero.
    pub fn new(cfg: FaultConfig, boot_nonce_seed: u64) -> (r: Self)
        ensures
            r.cfg == cfg,
            r.rng.seed == (if cfg.seed != 0 {
                cfg.seed
            } else {
                boot_nonce_seed
            }),
            r.reorder_ring is None,
    {
        let seed: u64 = if cfg.seed != 0 {
            cfg.seed
        } else {
            boot_nonce_seed
        };
        FaultInjector { cfg, rng: seeded(seed), reorder_ring: None }
    }

    /// The configuration.
    pub fn cfg(&self) -> (r: &FaultConfig)
        ensures
            *r == self.cfg,
    {
        &self.cfg
    }
}

} // verus!
