//! Laws of the store, stated over the step functions that the operations'
//! contracts use.
use crate::address::slot_address;
use crate::store::{
    authorized_write_step, create_step, write_once_step, written_len, EchoError,
    Slots, MAX_CAPACITY,
};
use vstd::prelude::*;

verus! {

/// Every slot keeps at most as many bytes as its capacity.
pub open spec fn within_capacity(slots: Slots) -> bool {
    forall|a: Seq<u8>| #[trigger] slots.contains_key(a) ==> slots[a].data.len() <= slots[a].capacity
}

/// The slot at `a` exists and records `owner` as its creator.
pub open spec fn owned_by(slots: Slots, a: Seq<u8>, owner: Seq<u8>) -> bool {
    slots.contains_key(a) && slots[a].owner == owner
}

/// Creating a slot with a valid capacity at a free address and then writing
/// `payload` once succeeds, keeps `min(len(payload), capacity)` bytes, and
/// stores exactly that prefix of the payload.
pub proof fn lemma_write_once_after_create(
    slots: Slots,
    program_id: Seq<u8>,
    namespace: Seq<u8>,
    owner: Seq<u8>,
    seed: u64,
    capacity: u64,
    payload: Seq<u8>,
)
    requires
        0 < capacity <= MAX_CAPACITY,
        !slots.contains_key(slot_address(program_id, namespace, owner, seed)),
        payload.len() <= usize::MAX,
    ensures
        ({
            let a = slot_address(program_id, namespace, owner, seed);
            let n = if payload.len() <= capacity {
                payload.len()
            } else {
                capacity as nat
            };
            let (r1, s1) = create_step(slots, program_id, namespace, owner, seed, capacity);
            let (r2, s2) = write_once_step(s1, program_id, namespace, owner, seed, payload);
            &&& r1 == Ok::<Seq<u8>, EchoError>(a)
            &&& r2 == Ok::<usize, EchoError>(n as usize)
            &&& s2[a].data.len() == n
            &&& s2[a].data == payload.take(n as int)
        }),
{
}

/// After a successful `write_once`, a second `write_once` on the same slot
/// fails with `BufferOverwrite` and leaves every slot as it was, whatever the
/// second payload.
pub proof fn lemma_second_write_once_fails(
    slots: Slots,
    program_id: Seq<u8>,
    namespace: Seq<u8>,
    owner: Seq<u8>,
    seed: u64,
    first: Seq<u8>,
    second: Seq<u8>,
)
    requires
        write_once_step(slots, program_id, namespace, owner, seed, first).0 is Ok,
    ensures
        ({
            let s1 = write_once_step(slots, program_id, namespace, owner, seed, first).1;
            write_once_step(s1, program_id, namespace, owner, seed, second) == (Err::<
                usize,
                EchoError,
            >(EchoError::BufferOverwrite), s1)
        }),
{
}

/// `create` at an address that is taken fails with `AlreadyExists` and
/// leaves every slot as it was, whatever the capacity.
pub proof fn lemma_create_taken_fails(
    slots: Slots,
    program_id: Seq<u8>,
    namespace: Seq<u8>,
    owner: Seq<u8>,
    seed: u64,
    capacity: u64,
)
    requires
        slots.contains_key(slot_address(program_id, namespace, owner, seed)),
    ensures
        create_step(slots, program_id, namespace, owner, seed, capacity) == (Err::<
            Seq<u8>,
            EchoError,
        >(EchoError::AlreadyExists), slots),
{
}

/// A successful `create` records its caller as the slot's owner, with the
/// capacity asked for.
pub proof fn lemma_create_records_owner(
    slots: Slots,
    program_id: Seq<u8>,
    namespace: Seq<u8>,
    owner: Seq<u8>,
    seed: u64,
    capacity: u64,
)
    requires
        create_step(slots, program_id, namespace, owner, seed, capacity).0 is Ok,
    ensures
        ({
            let a = slot_address(program_id, namespace, owner, seed);
            let s1 = create_step(slots, program_id, namespace, owner, seed, capacity).1;
            owned_by(s1, a, owner) && s1[a].capacity == capacity
        }),
{
}

/// On a slot created by `owner`, `authorized_write` by any other caller fails
/// with `Unauthorized` and leaves every slot as it was; by `owner` it
/// succeeds, replaces the data with the payload cut to the capacity, and
/// leaves the slot owned by `owner` with its capacity, so that it succeeds
/// again any number of times.
pub proof fn lemma_authorized_write_policy(
    slots: Slots,
    program_id: Seq<u8>,
    namespace: Seq<u8>,
    owner: Seq<u8>,
    seed: u64,
    payload: Seq<u8>,
    caller: Seq<u8>,
)
    requires
        owned_by(slots, slot_address(program_id, namespace, owner, seed), owner),
    ensures
        ({
            let a = slot_address(program_id, namespace, owner, seed);
            let (r, s1) = authorized_write_step(
                slots,
                program_id,
                namespace,
                owner,
                seed,
                payload,
                caller,
            );
            let n = written_len(payload.len(), slots[a].capacity);
            &&& caller != owner ==> r == Err::<usize, EchoError>(EchoError::Unauthorized) && s1
                == slots
            &&& caller == owner ==> {
                &&& r == Ok::<usize, EchoError>(n as usize)
                &&& s1[a].data == payload.take(n as int)
                &&& s1[a].capacity == slots[a].capacity
                &&& owned_by(s1, a, owner)
                &&& s1.remove(a) == slots.remove(a)
            }
        }),
{
    let a = slot_address(program_id, namespace, owner, seed);
    if caller == owner {
        let s1 = authorized_write_step(slots, program_id, namespace, owner, seed, payload, caller).1;
        assert(s1.remove(a) =~= slots.remove(a));
    }
}

/// No operation lets a slot hold more bytes than its capacity.
pub proof fn lemma_steps_within_capacity(
    slots: Slots,
    program_id: Seq<u8>,
    namespace: Seq<u8>,
    owner: Seq<u8>,
    seed: u64,
    capacity: u64,
    payload: Seq<u8>,
    caller: Seq<u8>,
)
    requires
        within_capacity(slots),
    ensures
        within_capacity(create_step(slots, program_id, namespace, owner, seed, capacity).1),
        within_capacity(write_once_step(slots, program_id, namespace, owner, seed, payload).1),
        within_capacity(
            authorized_write_step(slots, program_id, namespace, owner, seed, payload, caller).1,
        ),
{
}

/// No operation changes the capacity or the owner of a slot that exists.
pub proof fn lemma_steps_keep_capacity(
    slots: Slots,
    program_id: Seq<u8>,
    namespace: Seq<u8>,
    owner: Seq<u8>,
    seed: u64,
    capacity: u64,
    payload: Seq<u8>,
    caller: Seq<u8>,
    a: Seq<u8>,
)
    requires
        slots.contains_key(a),
    ensures
        ({
            let s1 = create_step(slots, program_id, namespace, owner, seed, capacity).1;
            let s2 = write_once_step(slots, program_id, namespace, owner, seed, payload).1;
            let s3 = authorized_write_step(slots, program_id, namespace, owner, seed, payload, caller).1;
            &&& s1[a].capacity == slots[a].capacity && s1[a].owner == slots[a].owner
            &&& s2[a].capacity == slots[a].capacity && s2[a].owner == slots[a].owner
            &&& s3[a].capacity == slots[a].capacity && s3[a].owner == slots[a].owner
        }),
{
}

} // verus!
