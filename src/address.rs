//! Deterministic slot addresses, derived from a namespace label, an owner
//! identity and a numeric seed under a program id.
use anchor_lang::prelude::Pubkey;
use vstd::prelude::*;

verus! {

/// Longest namespace label that can serve as a derivation seed.
pub const MAX_NAMESPACE_LEN: usize = 32;

/// The eight little-endian bytes of a seed, least significant first.
pub open spec fn seed_bytes(seed: u64) -> Seq<u8> {
    seq![
        seed as u8,
        (seed >> 8u64) as u8,
        (seed >> 16u64) as u8,
        (seed >> 24u64) as u8,
        (seed >> 32u64) as u8,
        (seed >> 40u64) as u8,
        (seed >> 48u64) as u8,
        (seed >> 56u64) as u8,
    ]
}

/// The seed list of a slot: the namespace, the owner, the seed's bytes.
pub open spec fn address_seeds(namespace: Seq<u8>, owner: Seq<u8>, seed: u64) -> Seq<Seq<u8>> {
    seq![namespace, owner, seed_bytes(seed)]
}

/// The address that the seeded derivation gives for a list of seeds under a
/// program id.
pub uninterp spec fn seeded_address(seeds: Seq<Seq<u8>>, program_id: Seq<u8>) -> Seq<u8>;

/// The address of the slot that `owner` holds under `namespace` and `seed`.
pub open spec fn slot_address(
    program_id: Seq<u8>,
    namespace: Seq<u8>,
    owner: Seq<u8>,
    seed: u64,
) -> Seq<u8> {
    seeded_address(address_seeds(namespace, owner, seed), program_id)
}

/// Relies on `Pubkey::derive_address` (solana-address, as anchor-lang's
/// `Pubkey`), called without a bump: the address is the SHA-256 digest of the
/// seeds, the program id and a fixed marker, so it depends on those values
/// alone. It panics only on a seed longer than 32 bytes, which `requires`
/// leaves out (the owner is 32 bytes long).
#[verifier::external_body]
fn derive_with_seeds(
    namespace: &[u8],
    owner: &[u8; 32],
    seed_le: &[u8],
    program_id: &[u8; 32],
) -> (r: [u8; 32])
    requires
        namespace@.len() <= 32,
        seed_le@.len() <= 32,
    ensures
        r@ == seeded_address(seq![namespace@, owner@, seed_le@], program_id@),
{
    let program = Pubkey::new_from_array(*program_id);
    Pubkey::derive_address(&[namespace, &owner[..], seed_le], None, &program).to_bytes()
}

/// The little-endian encoding of `seed`.
pub fn seed_to_le_bytes(seed: u64) -> (r: Vec<u8>)
    ensures
        r@ == seed_bytes(seed),
{
    let mut r: Vec<u8> = Vec::new();
    r.push(seed as u8);
    r.push((seed >> 8u64) as u8);
    r.push((seed >> 16u64) as u8);
    r.push((seed >> 24u64) as u8);
    r.push((seed >> 32u64) as u8);
    r.push((seed >> 40u64) as u8);
    r.push((seed >> 48u64) as u8);
    r.push((seed >> 56u64) as u8);
    assert(r@ =~= seed_bytes(seed));
    r
}

/// Derives the address of the slot that `owner` holds under `namespace` and
/// `seed`, for the program `program_id`.
pub fn derive(program_id: &[u8; 32], namespace: &[u8], owner: &[u8; 32], seed: u64) -> (r: [u8;
    32])
    requires
        namespace@.len() <= MAX_NAMESPACE_LEN,
    ensures
        r@ == slot_address(program_id@, namespace@, owner@, seed),
{
    let seed_le = seed_to_le_bytes(seed);
    let r = derive_with_seeds(namespace, owner, seed_le.as_slice(), program_id);
    assert(seq![namespace@, owner@, seed_le@] =~= address_seeds(namespace@, owner@, seed));
    r
}

/// Two derivations from the same program id, namespace, owner and seed give
/// the same address.
pub proof fn lemma_derive_deterministic(
    program_id: Seq<u8>,
    namespace: Seq<u8>,
    owner: Seq<u8>,
    seed: u64,
    first: Seq<u8>,
    second: Seq<u8>,
)
    requires
        first == slot_address(program_id, namespace, owner, seed),
        second == slot_address(program_id, namespace, owner, seed),
    ensures
        first == second,
{
}

/// A seed is recovered from its little-endian bytes.
pub proof fn lemma_seed_bytes_injective(a: u64, b: u64)
    ensures
        seed_bytes(a) == seed_bytes(b) ==> a == b,
{
    if seed_bytes(a) == seed_bytes(b) {
        assert(seed_bytes(a)[0] == seed_bytes(b)[0]);
        assert(seed_bytes(a)[1] == seed_bytes(b)[1]);
        assert(seed_bytes(a)[2] == seed_bytes(b)[2]);
        assert(seed_bytes(a)[3] == seed_bytes(b)[3]);
        assert(seed_bytes(a)[4] == seed_bytes(b)[4]);
        assert(seed_bytes(a)[5] == seed_bytes(b)[5]);
        assert(seed_bytes(a)[6] == seed_bytes(b)[6]);
        assert(seed_bytes(a)[7] == seed_bytes(b)[7]);
        assert((a as u8 == b as u8 && (a >> 8u64) as u8 == (b >> 8u64) as u8 && (a >> 16u64) as u8
            == (b >> 16u64) as u8 && (a >> 24u64) as u8 == (b >> 24u64) as u8 && (a >> 32u64) as u8
            == (b >> 32u64) as u8 && (a >> 40u64) as u8 == (b >> 40u64) as u8 && (a >> 48u64) as u8
            == (b >> 48u64) as u8 && (a >> 56u64) as u8 == (b >> 56u64) as u8) ==> a == b)
            by (bit_vector);
    }
}

/// Distinct (namespace, owner, seed) inputs give distinct seed lists, so two
/// slot addresses under one program id coincide only where the digest
/// collides: changing any one input changes what is hashed.
pub proof fn lemma_address_seeds_injective(
    namespace_a: Seq<u8>,
    owner_a: Seq<u8>,
    seed_a: u64,
    namespace_b: Seq<u8>,
    owner_b: Seq<u8>,
    seed_b: u64,
)
    ensures
        address_seeds(namespace_a, owner_a, seed_a) == address_seeds(namespace_b, owner_b, seed_b)
            ==> namespace_a == namespace_b && owner_a == owner_b && seed_a == seed_b,
{
    let sa = address_seeds(namespace_a, owner_a, seed_a);
    let sb = address_seeds(namespace_b, owner_b, seed_b);
    if sa == sb {
        assert(sa[0] == sb[0]);
        assert(sa[1] == sb[1]);
        assert(sa[2] == sb[2]);
        lemma_seed_bytes_injective(seed_a, seed_b);
    }
}

} // verus!
