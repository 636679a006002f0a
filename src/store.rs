//! A table of fixed-capacity byte buffers keyed by derived slot addresses.
use crate::address::{slot_address, MAX_NAMESPACE_LEN};
use vstd::prelude::*;

verus! {

/// Largest capacity that a slot may be created with.
pub const MAX_CAPACITY: u64 = 10240;

/// Why an operation on the store was refused.
#[derive(Debug, Clone, Copy, PartialEq, Eq, Structural)]
pub enum EchoError {
    /// A slot already stands at the derived address.
    AlreadyExists,
    /// No slot stands at the derived address.
    NotFound,
    /// The capacity is zero or above `MAX_CAPACITY`.
    InvalidCapacity,
    /// The write-once slot has already been written.
    BufferOverwrite,
    /// The caller is not the owner recorded at creation.
    Unauthorized,
}

/// What a slot holds, as a mathematical value.
pub struct Slot {
    pub owner: Seq<u8>,
    pub seed: u64,
    pub capacity: u64,
    pub written: bool,
    pub data: Seq<u8>,
}

/// The slots of a store, keyed by address.
pub type Slots = Map<Seq<u8>, Slot>;

/// A freshly created slot: `capacity` zero bytes, not yet written.
pub open spec fn fresh_slot(owner: Seq<u8>, seed: u64, capacity: u64) -> Slot {
    Slot {
        owner,
        seed,
        capacity,
        written: false,
        data: Seq::new(capacity as nat, |i: int| 0u8),
    }
}

/// How many bytes of a payload of `len` bytes a slot of `capacity` keeps.
pub open spec fn written_len(len: nat, capacity: u64) -> nat {
    if len <= capacity {
        len
    } else {
        capacity as nat
    }
}

/// The slot after a successful write of `payload`: the payload cut to the
/// capacity replaces the data, and the slot counts as written.
pub open spec fn after_write(slot: Slot, payload: Seq<u8>) -> Slot {
    Slot {
        owner: slot.owner,
        seed: slot.seed,
        capacity: slot.capacity,
        written: true,
        data: payload.take(written_len(payload.len(), slot.capacity) as int),
    }
}

/// Outcome of `create`: the address or the error, and the slots afterwards.
pub open spec fn create_step(
    slots: Slots,
    program_id: Seq<u8>,
    namespace: Seq<u8>,
    owner: Seq<u8>,
    seed: u64,
    capacity: u64,
) -> (Result<Seq<u8>, EchoError>, Slots) {
    let a = slot_address(program_id, namespace, owner, seed);
    if slots.contains_key(a) {
        (Err(EchoError::AlreadyExists), slots)
    } else if capacity == 0 || capacity > MAX_CAPACITY {
        (Err(EchoError::InvalidCapacity), slots)
    } else {
        (Ok(a), slots.insert(a, fresh_slot(owner, seed, capacity)))
    }
}

/// Outcome of `write_once`: the count of bytes written or the error, and the
/// slots afterwards.
pub open spec fn write_once_step(
    slots: Slots,
    program_id: Seq<u8>,
    namespace: Seq<u8>,
    owner: Seq<u8>,
    seed: u64,
    payload: Seq<u8>,
) -> (Result<usize, EchoError>, Slots) {
    let a = slot_address(program_id, namespace, owner, seed);
    if !slots.contains_key(a) {
        (Err(EchoError::NotFound), slots)
    } else if slots[a].written {
        (Err(EchoError::BufferOverwrite), slots)
    } else {
        (
            Ok(written_len(payload.len(), slots[a].capacity) as usize),
            slots.insert(a, after_write(slots[a], payload)),
        )
    }
}

/// Outcome of `authorized_write`: the count of bytes written or the error, and
/// the slots afterwards.
pub open spec fn authorized_write_step(
    slots: Slots,
    program_id: Seq<u8>,
    namespace: Seq<u8>,
    owner: Seq<u8>,
    seed: u64,
    payload: Seq<u8>,
    caller: Seq<u8>,
) -> (Result<usize, EchoError>, Slots) {
    let a = slot_address(program_id, namespace, owner, seed);
    if !slots.contains_key(a) {
        (Err(EchoError::NotFound), slots)
    } else if slots[a].owner != caller {
        (Err(EchoError::Unauthorized), slots)
    } else {
        (
            Ok(written_len(payload.len(), slots[a].capacity) as usize),
            slots.insert(a, after_write(slots[a], payload)),
        )
    }
}

/// The address handed back by `create`, as a sequence of bytes.
pub open spec fn address_result(r: Result<[u8; 32], EchoError>) -> Result<Seq<u8>, EchoError> {
    match r {
        Ok(a) => Ok(a@),
        Err(e) => Err(e),
    }
}

/// One stored buffer together with the address it is kept under.
pub struct BufferRecord {
    address: [u8; 32],
    owner: [u8; 32],
    seed: u64,
    capacity: u64,
    written: bool,
    data: Vec<u8>,
}

impl View for BufferRecord {
    type V = Slot;

    closed spec fn view(&self) -> Slot {
        Slot {
            owner: self.owner@,
            seed: self.seed,
            capacity: self.capacity,
            written: self.written,
            data: self.data@,
        }
    }
}

/// The store: the slots created so far under one program id.
pub struct EchoStore {
    program_id: [u8; 32],
    records: Vec<BufferRecord>,
    slots: Ghost<Slots>,
}

impl View for EchoStore {
    type V = Slots;

    closed spec fn view(&self) -> Slots {
        self.slots@
    }
}

/// Whether two 32-byte values are equal.
fn same_bytes(a: &[u8; 32], b: &[u8; 32]) -> (r: bool)
    ensures
        r == (a@ == b@),
{
    let mut i: usize = 0;
    while i < 32
        invariant
            0 <= i <= 32,
            forall|k: int| 0 <= k < i ==> a@[k] == b@[k],
        decreases 32 - i,
    {
        if a[i] != b[i] {
            return false;
        }
        i = i + 1;
    }
    assert(a@ =~= b@);
    true
}

/// `capacity` zero bytes.
fn zeroed(capacity: u64) -> (r: Vec<u8>)
    requires
        capacity <= MAX_CAPACITY,
    ensures
        r@ == Seq::new(capacity as nat, |i: int| 0u8),
{
    let mut r: Vec<u8> = Vec::new();
    let mut i: u64 = 0;
    while i < capacity
        invariant
            i <= capacity,
            r@ =~= Seq::new(i as nat, |k: int| 0u8),
        decreases capacity - i,
    {
        r.push(0u8);
        i = i + 1;
    }
    r
}

/// The first `len` bytes of `payload`.
fn prefix(payload: &[u8], len: usize) -> (r: Vec<u8>)
    requires
        len <= payload@.len(),
    ensures
        r@ == payload@.take(len as int),
{
    let mut r: Vec<u8> = Vec::new();
    let mut i: usize = 0;
    while i < len
        invariant
            i <= len,
            len <= payload@.len(),
            r@ =~= payload@.take(i as int),
        decreases len - i,
    {
        r.push(payload[i]);
        i = i + 1;
    }
    r
}

impl EchoStore {
    /// The program id that addresses are derived under.
    pub closed spec fn program(&self) -> Seq<u8> {
        self.program_id@
    }

    /// The records and the slot map agree, no address appears twice, and no
    /// capacity exceeds `MAX_CAPACITY`.
    pub closed spec fn wf(&self) -> bool {
        &&& forall|i: int|
            0 <= i < self.records.len() ==> #[trigger] self.slots@.contains_key(
                self.records[i].address@,
            ) && self.slots@[self.records[i].address@] == self.records[i]@
        &&& forall|a: Seq<u8>|
            #[trigger] self.slots@.contains_key(a) ==> exists|i: int|
                0 <= i < self.records.len() && #[trigger] self.records[i].address@ == a
        &&& forall|i: int|
            0 <= i < self.records.len() ==> #[trigger] self.records[i].capacity <= MAX_CAPACITY
        &&& forall|i: int, j: int|
            0 <= i < j < self.records.len() ==> #[trigger] self.records[i].address@
                != #[trigger] self.records[j].address@
    }

    /// An empty store for the program `program_id`.
    pub fn new(program_id: [u8; 32]) -> (s: Self)
        ensures
            s.wf(),
            s@ == Slots::empty(),
            s.program() == program_id@,
    {
        EchoStore { program_id, records: Vec::new(), slots: Ghost(Slots::empty()) }
    }

    /// The index of the record kept under `address`, if there is one.
    fn find(&self, address: &[u8; 32]) -> (r: Option<usize>)
        requires
            self.wf(),
        ensures
            match r {
                Some(i) => i < self.records.len() && self.records[i as int].address@ == address@
                    && self@.contains_key(address@),
                None => !self@.contains_key(address@),
            },
    {
        let mut i: usize = 0;
        while i < self.records.len()
            invariant
                self.wf(),
                i <= self.records.len(),
                forall|k: int| 0 <= k < i ==> self.records[k].address@ != address@,
            decreases self.records.len() - i,
        {
            if same_bytes(&self.records[i].address, address) {
                assert(self.slots@.contains_key(self.records[i as int].address@));
                return Some(i);
            }
            i = i + 1;
        }
        None
    }

    /// The data of the slot at `address`, if there is one.
    pub fn stored(&self, address: &[u8; 32]) -> (r: Option<&[u8]>)
        requires
            self.wf(),
        ensures
            match r {
                Some(d) => self@.contains_key(address@) && d@ == self@[address@].data,
                None => !self@.contains_key(address@),
            },
    {
        match self.find(address) {
            Some(i) => Some(self.records[i].data.as_slice()),
            None => None,
        }
    }

    /// The capacity of the slot at `address`, if there is one.
    pub fn capacity_of(&self, address: &[u8; 32]) -> (r: Option<u64>)
        requires
            self.wf(),
        ensures
            match r {
                Some(c) => self@.contains_key(address@) && c == self@[address@].capacity,
                None => !self@.contains_key(address@),
            },
    {
        match self.find(address) {
            Some(i) => Some(self.records[i].capacity),
            None => None,
        }
    }

    /// Whether the slot at `address` has been written, if there is one.
    pub fn is_written(&self, address: &[u8; 32]) -> (r: Option<bool>)
        requires
            self.wf(),
        ensures
            match r {
                Some(w) => self@.contains_key(address@) && w == self@[address@].written,
                None => !self@.contains_key(address@),
            },
    {
        match self.find(address) {
            Some(i) => Some(self.records[i].written),
            None => None,
        }
    }

    /// Replaces the data of record `i` with `payload` cut to the capacity, and
    /// marks it written.
    fn write_at(&mut self, i: usize, payload: &[u8]) -> (r: usize)
        requires
            old(self).wf(),
            i < old(self).records.len(),
        ensures
            final(self).wf(),
            final(self).program() == old(self).program(),
            ({
                let a = old(self).records[i as int].address@;
                &&& old(self)@.contains_key(a)
                &&& r as nat == written_len(payload@.len(), old(self)@[a].capacity)
                &&& final(self)@ == old(self)@.insert(a, after_write(old(self)@[a], payload@))
            }),
    {
        let ghost a = self.records[i as int].address@;
        assert(self.slots@.contains_key(self.records[i as int].address@));
        let capacity = self.records[i].capacity;
        assert(capacity <= MAX_CAPACITY);
        let len: usize = if payload.len() <= capacity as usize {
            payload.len()
        } else {
            capacity as usize
        };
        let data = prefix(payload, len);
        let record = BufferRecord {
            address: self.records[i].address,
            owner: self.records[i].owner,
            seed: self.records[i].seed,
            capacity,
            written: true,
            data,
        };
        let ghost slot = after_write(self.slots@[a], payload@);
        assert(record@ == slot);
        self.records.set(i, record);
        self.slots = Ghost(self.slots@.insert(a, slot));
        proof {
            assert forall|j: int| 0 <= j < self.records.len() implies #[trigger] self.slots@.contains_key(
                self.records[j].address@,
            ) && self.slots@[self.records[j].address@] == self.records[j]@ by {
                if j != i {
                    assert(old(self).records[j].address@ != a);
                }
            }
            assert forall|b: Seq<u8>| #[trigger] self.slots@.contains_key(b) implies exists|k: int|
                0 <= k < self.records.len() && #[trigger] self.records[k].address@ == b by {
                if b == a {
                    assert(self.records[i as int].address@ == b);
                } else {
                    assert(old(self).slots@.contains_key(b));
                    let k = choose|k: int|
                        0 <= k < old(self).records.len() && #[trigger] old(self).records[k].address@ == b;
                    assert(self.records[k].address@ == b);
                }
            }
        }
        len
    }

    /// Creates the slot that `owner` holds under `namespace` and `seed`, with
    /// `capacity` zero bytes, and returns its address. Fails with
    /// `AlreadyExists` where a slot stands at that address, else with
    /// `InvalidCapacity` where the capacity is zero or above `MAX_CAPACITY`;
    /// a failure leaves the store as it was.
    pub fn create(&mut self, namespace: &[u8], owner: &[u8; 32], seed: u64, capacity: u64) -> (r:
        Result<[u8; 32], EchoError>)
        requires
            old(self).wf(),
            namespace@.len() <= MAX_NAMESPACE_LEN,
        ensures
            final(self).wf(),
            final(self).program() == old(self).program(),
            address_result(r) == create_step(
                old(self)@,
                old(self).program(),
                namespace@,
                owner@,
                seed,
                capacity,
            ).0,
            final(self)@ == create_step(
                old(self)@,
                old(self).program(),
                namespace@,
                owner@,
                seed,
                capacity,
            ).1,
    {
        let address = crate::address::derive(&self.program_id, namespace, owner, seed);
        if self.find(&address).is_some() {
            return Err(EchoError::AlreadyExists);
        }
        if capacity == 0 || capacity > MAX_CAPACITY {
            return Err(EchoError::InvalidCapacity);
        }
        let data = zeroed(capacity);
        let record = BufferRecord { address, owner: *owner, seed, capacity, written: false, data };
        let ghost slot = fresh_slot(owner@, seed, capacity);
        assert(record@ == slot);
        self.records.push(record);
        self.slots = Ghost(self.slots@.insert(address@, slot));
        proof {
            let n = old(self).records.len() as int;
            assert forall|j: int| 0 <= j < self.records.len() implies #[trigger] self.slots@.contains_key(
                self.records[j].address@,
            ) && self.slots@[self.records[j].address@] == self.records[j]@ by {
                if j < n {
                    assert(old(self).slots@.contains_key(old(self).records[j].address@));
                }
            }
            assert forall|b: Seq<u8>| #[trigger] self.slots@.contains_key(b) implies exists|k: int|
                0 <= k < self.records.len() && #[trigger] self.records[k].address@ == b by {
                if b == address@ {
                    assert(self.records[n].address@ == b);
                } else {
                    assert(old(self).slots@.contains_key(b));
                    let k = choose|k: int|
                        0 <= k < old(self).records.len() && #[trigger] old(self).records[k].address@ == b;
                    assert(self.records[k].address@ == b);
                }
            }
            assert forall|i: int, j: int| 0 <= i < j < self.records.len() implies #[trigger] self.records[i].address@
                != #[trigger] self.records[j].address@ by {
                if j == n {
                    assert(old(self).slots@.contains_key(old(self).records[i].address@));
                }
            }
        }
        Ok(address)
    }

    /// Writes `payload`, cut to the capacity, into the write-once slot that
    /// `owner` holds under `namespace` and `seed`, and returns how many bytes
    /// were kept. Fails with `NotFound` where no slot stands there, else with
    /// `BufferOverwrite` where the slot was written before; a failure leaves
    /// the store as it was.
    pub fn write_once(&mut self, namespace: &[u8], owner: &[u8; 32], seed: u64, payload: &[u8]) -> (r:
        Result<usize, EchoError>)
        requires
            old(self).wf(),
            namespace@.len() <= MAX_NAMESPACE_LEN,
        ensures
            final(self).wf(),
            final(self).program() == old(self).program(),
            r == write_once_step(old(self)@, old(self).program(), namespace@, owner@, seed, payload@).0,
            final(self)@ == write_once_step(
                old(self)@,
                old(self).program(),
                namespace@,
                owner@,
                seed,
                payload@,
            ).1,
    {
        let address = crate::address::derive(&self.program_id, namespace, owner, seed);
        match self.find(&address) {
            None => Err(EchoError::NotFound),
            Some(i) => {
                if self.records[i].written {
                    Err(EchoError::BufferOverwrite)
                } else {
                    let n = self.write_at(i, payload);
                    Ok(n)
                }
            },
        }
    }

    /// Replaces the data of the slot that `owner` holds under `namespace` and
    /// `seed` with `payload` cut to the capacity, and returns how many bytes
    /// were kept. Only the owner recorded at creation may do so, any number of
    /// times. Fails with `NotFound` where no slot stands there, else with
    /// `Unauthorized` where `caller` is not that owner; a failure leaves the
    /// store as it was.
    pub fn authorized_write(
        &mut self,
        namespace: &[u8],
        owner: &[u8; 32],
        seed: u64,
        payload: &[u8],
        caller: &[u8; 32],
    ) -> (r: Result<usize, EchoError>)
        requires
            old(self).wf(),
            namespace@.len() <= MAX_NAMESPACE_LEN,
        ensures
            final(self).wf(),
            final(self).program() == old(self).program(),
            r == authorized_write_step(
                old(self)@,
                old(self).program(),
                namespace@,
                owner@,
                seed,
                payload@,
                caller@,
            ).0,
            final(self)@ == authorized_write_step(
                old(self)@,
                old(self).program(),
                namespace@,
                owner@,
                seed,
                payload@,
                caller@,
            ).1,
    {
        let address = crate::address::derive(&self.program_id, namespace, owner, seed);
        match self.find(&address) {
            None => Err(EchoError::NotFound),
            Some(i) => {
                if !same_bytes(&self.records[i].owner, caller) {
                    Err(EchoError::Unauthorized)
                } else {
                    let n = self.write_at(i, payload);
                    Ok(n)
                }
            },
        }
    }
}

} // verus!
