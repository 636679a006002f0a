use anchor_echo::store::{EchoError, EchoStore, MAX_CAPACITY};

const PROGRAM: [u8; 32] = [7u8; 32];
const OWNER_A: [u8; 32] = [1u8; 32];
const OWNER_B: [u8; 32] = [2u8; 32];

#[test]
fn echo_write_once_scenario() {
    let mut store = EchoStore::new(PROGRAM);
    let x = store.create(b"echo", &OWNER_A, 1, 4).unwrap();
    assert_eq!(store.write_once(b"echo", &OWNER_A, 1, &[9, 9, 9, 9, 9]), Ok(4));
    assert_eq!(store.stored(&x), Some(&[9u8, 9, 9, 9][..]));
    assert_eq!(store.write_once(b"echo", &OWNER_A, 1, &[1]), Err(EchoError::BufferOverwrite));
    assert_eq!(store.stored(&x), Some(&[9u8, 9, 9, 9][..]));
}

#[test]
fn authorized_write_scenario() {
    let mut store = EchoStore::new(PROGRAM);
    let y = store.create(b"auth", &OWNER_A, 42, 8).unwrap();
    assert_eq!(
        store.authorized_write(b"auth", &OWNER_A, 42, &[1, 2, 3], &OWNER_B),
        Err(EchoError::Unauthorized)
    );
    assert_eq!(store.stored(&y), Some(&[0u8; 8][..]));
    assert_eq!(store.authorized_write(b"auth", &OWNER_A, 42, &[1, 2, 3], &OWNER_A), Ok(3));
    assert_eq!(store.stored(&y), Some(&[1u8, 2, 3][..]));
    assert_eq!(store.authorized_write(b"auth", &OWNER_A, 42, &[4, 5], &OWNER_A), Ok(2));
    assert_eq!(store.stored(&y), Some(&[4u8, 5][..]));
}

#[test]
fn create_returns_derived_address_with_zeroed_buffer() {
    let mut store = EchoStore::new(PROGRAM);
    let x = store.create(b"echo", &OWNER_A, 1, 4).unwrap();
    assert_eq!(x, anchor_echo::address::derive(&PROGRAM, b"echo", &OWNER_A, 1));
    assert_eq!(store.stored(&x), Some(&[0u8; 4][..]));
}

#[test]
fn write_once_keeps_short_payload_whole() {
    let mut store = EchoStore::new(PROGRAM);
    let x = store.create(b"echo", &OWNER_A, 3, 6).unwrap();
    assert_eq!(store.write_once(b"echo", &OWNER_A, 3, &[5, 6]), Ok(2));
    assert_eq!(store.stored(&x), Some(&[5u8, 6][..]));
}

#[test]
fn write_once_of_exact_capacity() {
    let mut store = EchoStore::new(PROGRAM);
    let x = store.create(b"echo", &OWNER_A, 3, 3).unwrap();
    assert_eq!(store.write_once(b"echo", &OWNER_A, 3, &[1, 2, 3]), Ok(3));
    assert_eq!(store.stored(&x), Some(&[1u8, 2, 3][..]));
}

#[test]
fn write_once_of_empty_payload_counts_as_written() {
    let mut store = EchoStore::new(PROGRAM);
    let x = store.create(b"echo", &OWNER_A, 5, 4).unwrap();
    assert_eq!(store.write_once(b"echo", &OWNER_A, 5, &[]), Ok(0));
    assert_eq!(store.stored(&x), Some(&[][..]));
    assert_eq!(store.write_once(b"echo", &OWNER_A, 5, &[1]), Err(EchoError::BufferOverwrite));
    assert_eq!(store.stored(&x), Some(&[][..]));
}

#[test]
fn create_on_taken_address_fails() {
    let mut store = EchoStore::new(PROGRAM);
    let x = store.create(b"echo", &OWNER_A, 1, 4).unwrap();
    assert_eq!(store.write_once(b"echo", &OWNER_A, 1, &[3, 3]), Ok(2));
    assert_eq!(store.create(b"echo", &OWNER_A, 1, 4), Err(EchoError::AlreadyExists));
    assert_eq!(store.create(b"echo", &OWNER_A, 1, 0), Err(EchoError::AlreadyExists));
    assert_eq!(store.create(b"echo", &OWNER_A, 1, 100), Err(EchoError::AlreadyExists));
    assert_eq!(store.stored(&x), Some(&[3u8, 3][..]));
}

#[test]
fn create_rejects_invalid_capacity() {
    let mut store = EchoStore::new(PROGRAM);
    assert_eq!(store.create(b"echo", &OWNER_A, 1, 0), Err(EchoError::InvalidCapacity));
    assert_eq!(
        store.create(b"echo", &OWNER_A, 1, MAX_CAPACITY + 1),
        Err(EchoError::InvalidCapacity)
    );
    let addr = anchor_echo::address::derive(&PROGRAM, b"echo", &OWNER_A, 1);
    assert_eq!(store.stored(&addr), None);
}

#[test]
fn create_accepts_largest_capacity() {
    let mut store = EchoStore::new(PROGRAM);
    let x = store.create(b"echo", &OWNER_A, 1, MAX_CAPACITY).unwrap();
    assert_eq!(store.stored(&x).map(|d| d.len()), Some(MAX_CAPACITY as usize));
    let payload = vec![1u8; MAX_CAPACITY as usize + 10];
    assert_eq!(store.write_once(b"echo", &OWNER_A, 1, &payload), Ok(MAX_CAPACITY as usize));
}

#[test]
fn writes_to_missing_slot_fail_not_found() {
    let mut store = EchoStore::new(PROGRAM);
    assert_eq!(store.write_once(b"echo", &OWNER_A, 1, &[1]), Err(EchoError::NotFound));
    assert_eq!(
        store.authorized_write(b"auth", &OWNER_A, 1, &[1], &OWNER_A),
        Err(EchoError::NotFound)
    );
    store.create(b"echo", &OWNER_A, 1, 4).unwrap();
    assert_eq!(store.write_once(b"echo", &OWNER_A, 2, &[1]), Err(EchoError::NotFound));
    assert_eq!(store.write_once(b"echo", &OWNER_B, 1, &[1]), Err(EchoError::NotFound));
    assert_eq!(store.write_once(b"auth", &OWNER_A, 1, &[1]), Err(EchoError::NotFound));
}

#[test]
fn owner_overwrites_any_number_of_times() {
    let mut store = EchoStore::new(PROGRAM);
    let y = store.create(b"auth", &OWNER_A, 9, 3).unwrap();
    for round in 0u8..5 {
        let payload = [round; 5];
        assert_eq!(store.authorized_write(b"auth", &OWNER_A, 9, &payload, &OWNER_A), Ok(3));
        assert_eq!(store.stored(&y), Some(&[round; 3][..]));
        assert_eq!(
            store.authorized_write(b"auth", &OWNER_A, 9, &[99], &OWNER_B),
            Err(EchoError::Unauthorized)
        );
        assert_eq!(store.stored(&y), Some(&[round; 3][..]));
    }
}

#[test]
fn slots_of_one_owner_are_independent() {
    let mut store = EchoStore::new(PROGRAM);
    let a = store.create(b"echo", &OWNER_A, 1, 4).unwrap();
    let b = store.create(b"echo", &OWNER_A, 2, 4).unwrap();
    let c = store.create(b"echo", &OWNER_B, 1, 2).unwrap();
    assert_ne!(a, b);
    assert_ne!(a, c);
    assert_eq!(store.write_once(b"echo", &OWNER_A, 2, &[7, 7, 7]), Ok(3));
    assert_eq!(store.stored(&a), Some(&[0u8; 4][..]));
    assert_eq!(store.stored(&b), Some(&[7u8, 7, 7][..]));
    assert_eq!(store.stored(&c), Some(&[0u8; 2][..]));
    assert_eq!(store.write_once(b"echo", &OWNER_A, 1, &[1]), Ok(1));
    assert_eq!(store.write_once(b"echo", &OWNER_B, 1, &[4, 4, 4]), Ok(2));
    assert_eq!(store.stored(&c), Some(&[4u8, 4][..]));
}

#[test]
fn getters_follow_the_slot() {
    let mut store = EchoStore::new(PROGRAM);
    let missing = anchor_echo::address::derive(&PROGRAM, b"echo", &OWNER_A, 1);
    assert_eq!(store.capacity_of(&missing), None);
    assert_eq!(store.is_written(&missing), None);
    assert_eq!(store.stored(&missing), None);
    let x = store.create(b"echo", &OWNER_A, 1, 5).unwrap();
    assert_eq!(x, missing);
    assert_eq!(store.capacity_of(&x), Some(5));
    assert_eq!(store.is_written(&x), Some(false));
    assert_eq!(store.write_once(b"echo", &OWNER_A, 1, &[1, 2, 3, 4, 5, 6, 7]), Ok(5));
    assert_eq!(store.capacity_of(&x), Some(5));
    assert_eq!(store.is_written(&x), Some(true));
    let y = store.create(b"auth", &OWNER_B, 4, 2).unwrap();
    assert_eq!(store.authorized_write(b"auth", &OWNER_B, 4, &[8], &OWNER_B), Ok(1));
    assert_eq!(store.is_written(&y), Some(true));
    assert_eq!(store.capacity_of(&y), Some(2));
}
