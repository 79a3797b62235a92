use dpdk_net_core::siphash24::siphash24;

fn ref_key() -> [u8; 16] {
    let mut k = [0u8; 16];
    for (i, slot) in k.iter_mut().enumerate() {
        *slot = i as u8;
    }
    k
}

const REF_VECTORS_FIRST_8: [u64; 8] = [
    0x726fdb47dd0e0e31,
    0x74f839c593dc67fd,
    0x0d6c8009d9a94f5a,
    0x85676696d7fb7e2d,
    0xcf2794e0277187b7,
    0x18765564cd99a68d,
    0xcbc9466e58fee3ce,
    0xab0200f58b01d137,
];

#[test]
fn siphash24_reference_vectors_first_8() {
    let key = ref_key();
    for (i, expected) in REF_VECTORS_FIRST_8.iter().enumerate() {
        let msg: Vec<u8> = (0..i as u8).collect();
        let got = siphash24(&key, &msg);
        assert_eq!(
            got, *expected,
            "length {i}: got {got:016x}, expected {expected:016x}"
        );
    }
}

#[test]
fn empty_message_with_zero_key_is_deterministic() {
    let key = [0u8; 16];
    assert_eq!(siphash24(&key, b""), siphash24(&key, b""));
}

#[test]
fn different_keys_produce_different_outputs() {
    let k1 = [0u8; 16];
    let mut k2 = [0u8; 16];
    k2[0] = 1;
    assert_ne!(siphash24(&k1, b"hello"), siphash24(&k2, b"hello"));
}

#[test]
fn different_messages_produce_different_outputs() {
    let key = ref_key();
    assert_ne!(siphash24(&key, b"abc"), siphash24(&key, b"abd"));
}
