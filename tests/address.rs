use anchor_echo::address::{seed_to_le_bytes, MAX_NAMESPACE_LEN};

const PROGRAM: [u8; 32] = [7u8; 32];
const OWNER_A: [u8; 32] = [1u8; 32];
const OWNER_B: [u8; 32] = [2u8; 32];

#[test]
fn seed_bytes_are_little_endian() {
    assert_eq!(seed_to_le_bytes(0x0102030405060708), vec![8, 7, 6, 5, 4, 3, 2, 1]);
    assert_eq!(seed_to_le_bytes(0), vec![0u8; 8]);
    assert_eq!(seed_to_le_bytes(u64::MAX), vec![255u8; 8]);
    assert_eq!(seed_to_le_bytes(42), vec![42, 0, 0, 0, 0, 0, 0, 0]);
}

#[test]
fn derive_hashes_seeds_program_and_marker() {
    let expected: [u8; 32] = [
        2, 203, 71, 132, 32, 220, 169, 122, 132, 66, 103, 229, 148, 106, 73, 53, 135, 237, 67,
        184, 84, 211, 240, 48, 200, 213, 216, 103, 220, 52, 242, 156,
    ];
    assert_eq!(anchor_echo::address::derive(&PROGRAM, b"echo", &OWNER_A, 1), expected);
}

#[test]
fn derive_is_deterministic() {
    let first = anchor_echo::address::derive(&PROGRAM, b"auth", &OWNER_A, 42);
    let second = anchor_echo::address::derive(&PROGRAM, b"auth", &OWNER_A, 42);
    assert_eq!(first, second);
}

#[test]
fn derive_changes_with_each_input() {
    let base = anchor_echo::address::derive(&PROGRAM, b"echo", &OWNER_A, 1);
    assert_ne!(base, anchor_echo::address::derive(&PROGRAM, b"auth", &OWNER_A, 1));
    assert_ne!(base, anchor_echo::address::derive(&PROGRAM, b"echo", &OWNER_B, 1));
    assert_ne!(base, anchor_echo::address::derive(&PROGRAM, b"echo", &OWNER_A, 2));
    assert_ne!(base, anchor_echo::address::derive(&[8u8; 32], b"echo", &OWNER_A, 1));
    assert_ne!(base, OWNER_A);
    assert_ne!(base, PROGRAM);
}

#[test]
fn derive_accepts_longest_namespace() {
    let long = [b'n'; MAX_NAMESPACE_LEN];
    let a = anchor_echo::address::derive(&PROGRAM, &long, &OWNER_A, 0);
    let b = anchor_echo::address::derive(&PROGRAM, &long[..MAX_NAMESPACE_LEN - 1], &OWNER_A, 0);
    assert_ne!(a, b);
    let empty = anchor_echo::address::derive(&PROGRAM, b"", &OWNER_A, 0);
    assert_ne!(empty, a);
}
