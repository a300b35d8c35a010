//! Resolution of a declaration against the candidate pool: each declared
//! identifier is looked up in the pool, in declared order, and the first one
//! that the pool does not hold ends the resolution.

use std::collections::HashMap;
use vstd::prelude::*;
use vstd::std_specs::hash::*;
use crate::error::CallError;
use crate::identifier::ResourceIdentifier;
use crate::payload::{IAccountMeta, PreflightPayload};

verus! {

broadcast use vstd::std_specs::hash::group_hash_axioms;

/// What the host knows of a resource during one call: who owns it, and
/// whether it signed and may be written in the calling context. The resource
/// itself stays with the host; the library refers to it by its position in
/// the list it came in.
#[derive(Clone, Copy, Debug, PartialEq, Eq)]
pub struct ResourceHandle {
    pub key: ResourceIdentifier,
    pub owner: ResourceIdentifier,
    pub is_signer: bool,
    pub is_writable: bool,
}

/// Whether some handle of `pool` is bound to `id`.
pub open spec fn registered(pool: Seq<ResourceHandle>, id: ResourceIdentifier) -> bool {
    exists|slot: int| 0 <= slot < pool.len() && (#[trigger] pool[slot]).key == id
}

/// Whether `slot` is where the pool holds `id`: the last handle bound to it.
pub open spec fn holds_at(pool: Seq<ResourceHandle>, id: ResourceIdentifier, slot: int) -> bool {
    &&& 0 <= slot < pool.len()
    &&& pool[slot].key == id
    &&& forall|later: int| slot < later < pool.len() ==> (#[trigger] pool[later]).key != id
}

/// The slot at which the pool holds `id`, if it holds it. Of several handles
/// bound to one identifier the last registered wins.
pub open spec fn slot_of(pool: Seq<ResourceHandle>, id: ResourceIdentifier) -> Option<int>
    decreases pool.len(),
{
    if pool.len() == 0 {
        None
    } else if pool.last().key == id {
        Some(pool.len() - 1)
    } else {
        slot_of(pool.drop_last(), id)
    }
}

/// `slot_of` finds the last handle bound to an identifier, and finds none
/// exactly when no handle is bound to it.
pub proof fn lemma_slot_of(pool: Seq<ResourceHandle>, id: ResourceIdentifier)
    ensures
        slot_of(pool, id) is Some <==> registered(pool, id),
        slot_of(pool, id) matches Some(slot) ==> holds_at(pool, id, slot),
        forall|slot: int| holds_at(pool, id, slot) ==> slot_of(pool, id) == Some(slot),
    decreases pool.len(),
{
    if pool.len() > 0 {
        let front = pool.drop_last();
        lemma_slot_of(front, id);
        if pool.last().key == id {
            assert(pool[pool.len() - 1].key == id);
        } else {
            assert forall|slot: int| 0 <= slot < front.len() implies front[slot] == pool[slot] by {}
            if registered(front, id) {
                let slot = choose|slot: int| 0 <= slot < front.len() && front[slot].key == id;
                assert(pool[slot].key == id);
            }
            if registered(pool, id) {
                let slot = choose|slot: int| 0 <= slot < pool.len() && pool[slot].key == id;
                assert(front[slot].key == id);
            }
            if let Some(slot) = slot_of(front, id) {
                assert forall|later: int| slot < later < pool.len() implies pool[later].key
                    != id by {
                    if later < front.len() {
                        assert(front[later].key != id);
                    }
                }
            }
        }
        assert forall|slot: int| holds_at(pool, id, slot) implies slot_of(pool, id) == Some(
            slot,
        ) by {
            if pool.last().key == id {
                assert(pool[pool.len() - 1].key == id);
            } else {
                assert(slot < front.len());
                assert forall|later: int| slot < later < front.len() implies front[later].key
                    != id by {
                    assert(pool[later].key != id);
                }
                assert(holds_at(front, id, slot));
            }
        }
    }
}

/// Whether the pool holds every identifier that `descriptors` declares.
pub open spec fn all_registered(
    descriptors: Seq<IAccountMeta>,
    pool: Seq<ResourceHandle>,
) -> bool {
    forall|k: int|
        0 <= k < descriptors.len() ==> slot_of(pool, (#[trigger] descriptors[k]).pubkey) is Some
}

/// Whether `k` is the first position of `descriptors` whose identifier the
/// pool does not hold.
pub open spec fn first_missing(
    descriptors: Seq<IAccountMeta>,
    pool: Seq<ResourceHandle>,
    k: int,
) -> bool {
    &&& 0 <= k < descriptors.len()
    &&& slot_of(pool, descriptors[k].pubkey) is None
    &&& forall|j: int| 0 <= j < k ==> slot_of(pool, (#[trigger] descriptors[j]).pubkey) is Some
}

/// The slots of the declared resources, in declared order.
pub open spec fn resolved_slots(
    descriptors: Seq<IAccountMeta>,
    pool: Seq<ResourceHandle>,
) -> Seq<usize> {
    Seq::new(descriptors.len(), |k: int| slot_of(pool, descriptors[k].pubkey).unwrap() as usize)
}

/// What resolution gives: the slot of every declared resource, in declared
/// order, or `NotFound` with the first declared identifier that the pool does
/// not hold.
pub open spec fn resolve_spec(
    descriptors: Seq<IAccountMeta>,
    pool: Seq<ResourceHandle>,
) -> Result<Seq<usize>, CallError> {
    if all_registered(descriptors, pool) {
        Ok(resolved_slots(descriptors, pool))
    } else {
        let k = choose|k: int| first_missing(descriptors, pool, k);
        Err(CallError::NotFound(descriptors[k].pubkey))
    }
}

/// The first missing position decides the failure: no other position is the
/// first missing one.
pub proof fn lemma_first_missing_unique(
    descriptors: Seq<IAccountMeta>,
    pool: Seq<ResourceHandle>,
    k: int,
)
    requires
        first_missing(descriptors, pool, k),
    ensures
        !all_registered(descriptors, pool),
        resolve_spec(descriptors, pool) == Err::<Seq<usize>, CallError>(
            CallError::NotFound(descriptors[k].pubkey),
        ),
{
    assert(slot_of(pool, descriptors[k].pubkey) is None);
    let chosen = choose|c: int| first_missing(descriptors, pool, c);
    if chosen < k {
        assert(slot_of(pool, descriptors[chosen].pubkey) is Some);
    }
    if k < chosen {
        assert(slot_of(pool, descriptors[k].pubkey) is Some);
    }
}

/// Resolution goes by identifiers alone: two pools whose handles are bound,
/// slot by slot, to the same identifiers resolve every declaration alike,
/// whatever the owners and the flags of their handles.
pub proof fn lemma_resolution_goes_by_identifier(
    descriptors: Seq<IAccountMeta>,
    pool: Seq<ResourceHandle>,
    other: Seq<ResourceHandle>,
)
    requires
        pool.len() == other.len(),
        forall|slot: int| 0 <= slot < pool.len() ==> pool[slot].key == other[slot].key,
    ensures
        resolve_spec(descriptors, pool) == resolve_spec(descriptors, other),
{
    assert forall|id: ResourceIdentifier| slot_of(pool, id) == slot_of(other, id) by {
        lemma_slot_of_goes_by_identifier(pool, other, id);
    }
    assert(resolved_slots(descriptors, pool) =~= resolved_slots(descriptors, other));
    if !all_registered(descriptors, pool) {
        let missing = choose|k: int|
            0 <= k < descriptors.len() && slot_of(pool, (#[trigger] descriptors[k]).pubkey)
                is None;
        let first = lemma_first_missing_exists(descriptors, pool, missing);
        assert(first_missing(descriptors, other, first));
        lemma_first_missing_unique(descriptors, pool, first);
        lemma_first_missing_unique(descriptors, other, first);
    }
}

proof fn lemma_slot_of_goes_by_identifier(
    pool: Seq<ResourceHandle>,
    other: Seq<ResourceHandle>,
    id: ResourceIdentifier,
)
    requires
        pool.len() == other.len(),
        forall|slot: int| 0 <= slot < pool.len() ==> pool[slot].key == other[slot].key,
    ensures
        slot_of(pool, id) == slot_of(other, id),
    decreases pool.len(),
{
    if pool.len() > 0 {
        assert(pool.last().key == other.last().key);
        lemma_slot_of_goes_by_identifier(pool.drop_last(), other.drop_last(), id);
    }
}

/// Resolution keeps the declared order: where the pool holds every declared
/// identifier, resolution succeeds with one slot per declared resource, and
/// the slot at position `k` is where the pool holds the identifier declared
/// at position `k`.
pub proof fn lemma_resolution_keeps_order(
    descriptors: Seq<IAccountMeta>,
    pool: Seq<ResourceHandle>,
)
    requires
        pool.len() <= usize::MAX,
        forall|k: int|
            0 <= k < descriptors.len() ==> registered(pool, (#[trigger] descriptors[k]).pubkey),
    ensures
        resolve_spec(descriptors, pool) matches Ok(slots) && slots.len() == descriptors.len()
            && forall|k: int|
            0 <= k < descriptors.len() ==> holds_at(
                pool,
                descriptors[k].pubkey,
                (#[trigger] slots[k]) as int,
            ),
{
    assert forall|k: int| 0 <= k < descriptors.len() implies slot_of(
        pool,
        (#[trigger] descriptors[k]).pubkey,
    ) is Some by {
        lemma_slot_of(pool, descriptors[k].pubkey);
    }
    let slots = resolved_slots(descriptors, pool);
    assert forall|k: int| 0 <= k < descriptors.len() implies holds_at(
        pool,
        descriptors[k].pubkey,
        (#[trigger] slots[k]) as int,
    ) by {
        lemma_slot_of(pool, descriptors[k].pubkey);
    }
}

/// A missing identifier fails the resolution: where the pool lacks a
/// declared identifier, resolution gives no slots but `NotFound`, naming the
/// first declared identifier that the pool lacks.
pub proof fn lemma_missing_identifier_fails(
    descriptors: Seq<IAccountMeta>,
    pool: Seq<ResourceHandle>,
    missing: int,
)
    requires
        0 <= missing < descriptors.len(),
        !registered(pool, descriptors[missing].pubkey),
    ensures
        resolve_spec(descriptors, pool) matches Err(CallError::NotFound(id)) && exists|k: int|
            0 <= k <= missing && id == (#[trigger] descriptors[k]).pubkey && !registered(pool, id)
                && forall|j: int|
                0 <= j < k ==> registered(pool, (#[trigger] descriptors[j]).pubkey),
{
    lemma_slot_of(pool, descriptors[missing].pubkey);
    let k = lemma_first_missing_exists(descriptors, pool, missing);
    lemma_first_missing_unique(descriptors, pool, k);
    lemma_slot_of(pool, descriptors[k].pubkey);
    assert forall|j: int| 0 <= j < k implies registered(
        pool,
        (#[trigger] descriptors[j]).pubkey,
    ) by {
        lemma_slot_of(pool, descriptors[j].pubkey);
    }
}

/// Before a missing position there is a first missing one.
proof fn lemma_first_missing_exists(
    descriptors: Seq<IAccountMeta>,
    pool: Seq<ResourceHandle>,
    missing: int,
) -> (k: int)
    requires
        0 <= missing < descriptors.len(),
        slot_of(pool, descriptors[missing].pubkey) is None,
    ensures
        0 <= k <= missing,
        first_missing(descriptors, pool, k),
    decreases missing,
{
    if exists|j: int| 0 <= j < missing && slot_of(pool, (#[trigger] descriptors[j]).pubkey) is None {
        let j = choose|j: int|
            0 <= j < missing && slot_of(pool, (#[trigger] descriptors[j]).pubkey) is None;
        lemma_first_missing_exists(descriptors, pool, j)
    } else {
        missing
    }
}

/// The first eight bytes of an identifier, as a number. Handles are filed
/// under it; identifiers with different fingerprints differ.
spec fn fingerprint(id: ResourceIdentifier) -> u64 {
    (id.bytes[0] as int + 256 * id.bytes[1] as int + 65536 * id.bytes[2] as int + 16777216
        * id.bytes[3] as int + 4294967296 * id.bytes[4] as int + 1099511627776
        * id.bytes[5] as int + 281474976710656 * id.bytes[6] as int + 72057594037927936
        * id.bytes[7] as int) as u64
}

fn fingerprint_of(id: &ResourceIdentifier) -> (f: u64)
    ensures
        f == fingerprint(*id),
{
    (id.bytes[0] as u64) + 256 * (id.bytes[1] as u64) + 65536 * (id.bytes[2] as u64) + 16777216 * (
    id.bytes[3] as u64) + 4294967296 * (id.bytes[4] as u64) + 1099511627776 * (id.bytes[5] as u64)
        + 281474976710656 * (id.bytes[6] as u64) + 72057594037927936 * (id.bytes[7] as u64)
}

/// Whether `slot` is the last slot below `below` whose identifier has the
/// fingerprint `f`, or, for no slot, whether no slot below `below` has it.
spec fn last_below(
    handles: Seq<ResourceHandle>,
    f: u64,
    below: int,
    slot: Option<usize>,
) -> bool {
    match slot {
        Some(s) => {
            &&& 0 <= s < below
            &&& fingerprint(handles[s as int].key) == f
            &&& forall|t: int| s < t < below ==> fingerprint((#[trigger] handles[t]).key) != f
        },
        None => forall|t: int| 0 <= t < below ==> fingerprint((#[trigger] handles[t]).key) != f,
    }
}

/// The resources that the caller hands in for the target to choose from.
/// Of several handles bound to one identifier the last registered wins.
///
/// The handles are filed by fingerprint: `last` knows, for each fingerprint,
/// the last slot that has it, and `previous` knows, for each slot, the slot
/// before it with the same fingerprint. The map is keyed by a number and not
/// by the identifier, because Verus knows what a hash map does for integer
/// keys only; a look-up compares whole identifiers along the chain.
#[derive(Debug)]
pub struct CandidatePool {
    handles: Vec<ResourceHandle>,
    last: HashMap<u64, usize>,
    previous: Vec<Option<usize>>,
}

impl View for CandidatePool {
    type V = Seq<ResourceHandle>;

    closed spec fn view(&self) -> Seq<ResourceHandle> {
        self.handles@
    }
}

impl CandidatePool {
    /// Whether the filing agrees with the handles.
    #[verifier::type_invariant]
    closed spec fn filed(&self) -> bool {
        &&& self.previous@.len() == self.handles@.len()
        &&& forall|f: u64| #[trigger]
            self.last@.contains_key(f) ==> last_below(
                self.handles@,
                f,
                self.handles@.len() as int,
                Some(self.last@[f]),
            )
        &&& forall|f: u64|
            !(#[trigger] self.last@.contains_key(f)) ==> last_below(
                self.handles@,
                f,
                self.handles@.len() as int,
                None,
            )
        &&& forall|s: int|
            0 <= s < self.handles@.len() ==> last_below(
                self.handles@,
                fingerprint(self.handles@[s].key),
                s,
                #[trigger] self.previous@[s],
            )
    }

    /// A pool without handles.
    pub fn new() -> (pool: CandidatePool)
        ensures
            pool@ == Seq::<ResourceHandle>::empty(),
    {
        CandidatePool { handles: Vec::new(), last: HashMap::new(), previous: Vec::new() }
    }

    /// The pool in which `handles` were registered from first to last.
    pub fn from_handles(handles: &[ResourceHandle]) -> (pool: CandidatePool)
        ensures
            pool@ == handles@,
    {
        let mut pool = CandidatePool::new();
        let mut i: usize = 0;
        while i < handles.len()
            invariant
                i <= handles@.len(),
                pool@ == handles@.take(i as int),
            decreases handles@.len() - i,
        {
            pool.register(handles[i]);
            assert(handles@.take(i as int).push(handles@[i as int]) =~= handles@.take(i + 1));
            i += 1;
        }
        assert(handles@.take(handles@.len() as int) =~= handles@);
        pool
    }

    /// Registers `handle` after those already in the pool.
    pub fn register(&mut self, handle: ResourceHandle)
        ensures
            final(self)@ == old(self)@.push(handle),
    {
        proof {
            use_type_invariant(&*self);
        }
        let f = fingerprint_of(&handle.key);
        let slot = self.handles.len();
        let before = match self.last.get(&f) {
            Some(s) => Some(*s),
            None => None,
        };
        let mut taken = CandidatePool::new();
        core::mem::swap(&mut taken, self);
        let CandidatePool { mut handles, mut last, mut previous } = taken;
        let ghost old_handles = handles@;
        let ghost old_last = last@;
        handles.push(handle);
        last.insert(f, slot);
        previous.push(before);
        proof {
            assert(old_last.contains_key(f) ==> before == Some(old_last[f]));
            assert(!old_last.contains_key(f) ==> before is None);
            assert forall|s: int| 0 <= s < old_handles.len() implies handles@[s]
                == old_handles[s] by {}
            assert forall|g: u64| #[trigger] last@.contains_key(g) implies last_below(
                handles@,
                g,
                handles@.len() as int,
                Some(last@[g]),
            ) by {
                if g != f {
                    assert(old_last.contains_key(g));
                }
            }
            assert forall|g: u64| !(#[trigger] last@.contains_key(g)) implies last_below(
                handles@,
                g,
                handles@.len() as int,
                None,
            ) by {
                assert(!old_last.contains_key(g));
            }
            assert forall|s: int| 0 <= s < handles@.len() implies last_below(
                handles@,
                fingerprint(handles@[s].key),
                s,
                #[trigger] previous@[s],
            ) by {
                if s < old_handles.len() {
                    assert(last_below(
                        old_handles,
                        fingerprint(old_handles[s].key),
                        s,
                        previous@[s],
                    ));
                }
            }
        }
        *self = CandidatePool { handles, last, previous };
    }

    /// The number of registered handles.
    pub fn len(&self) -> (n: usize)
        ensures
            n == self@.len(),
    {
        self.handles.len()
    }

    /// The handle registered at `slot`, if there is one.
    pub fn get(&self, slot: usize) -> (handle: Option<ResourceHandle>)
        ensures
            handle == if slot < self@.len() {
                Some(self@[slot as int])
            } else {
                None
            },
    {
        if slot < self.handles.len() {
            Some(self.handles[slot])
        } else {
            None
        }
    }

    /// The slot at which the pool holds `id`.
    pub fn lookup(&self, id: &ResourceIdentifier) -> (slot: Option<usize>)
        ensures
            slot is Some <==> registered(self@, *id),
            slot matches Some(s) ==> holds_at(self@, *id, s as int),
            match slot {
                Some(s) => slot_of(self@, *id) == Some(s as int),
                None => slot_of(self@, *id) is None,
            },
    {
        proof {
            use_type_invariant(self);
        }
        let f = fingerprint_of(id);
        let mut at = match self.last.get(&f) {
            Some(s) => Some(*s),
            None => None,
        };
        let ghost mut limit = self.handles@.len() as int;
        proof {
            assert(self.last@.contains_key(f) ==> at == Some(self.last@[f]));
            assert(!self.last@.contains_key(f) ==> at is None);
        }
        loop
            invariant
                self.filed(),
                f == fingerprint(*id),
                0 <= limit <= self.handles@.len(),
                last_below(self.handles@, f, limit, at),
                forall|t: int|
                    limit <= t < self.handles@.len() ==> (#[trigger] self.handles@[t]).key != *id,
            decreases limit,
        {
            match at {
                Some(s) => {
                    if self.handles[s].key == *id {
                        proof {
                            assert forall|t: int| s < t < self.handles@.len() implies (
                            #[trigger] self.handles@[t]).key != *id by {
                                if t < limit {
                                    assert(fingerprint(self.handles@[t].key) != f);
                                }
                            }
                            assert(holds_at(self@, *id, s as int));
                            lemma_slot_of(self@, *id);
                        }
                        return Some(s);
                    }
                    proof {
                        assert forall|t: int| s <= t < self.handles@.len() implies (
                        #[trigger] self.handles@[t]).key != *id by {
                            if s < t < limit {
                                assert(fingerprint(self.handles@[t].key) != f);
                            }
                        }
                        limit = s as int;
                    }
                    at = self.previous[s];
                },
                None => {
                    proof {
                        assert forall|t: int| 0 <= t < self.handles@.len() implies (
                        #[trigger] self.handles@[t]).key != *id by {
                            if t < limit {
                                assert(fingerprint(self.handles@[t].key) != f);
                            }
                        }
                        lemma_slot_of(self@, *id);
                    }
                    return None;
                },
            }
        }
    }
}

impl PreflightPayload {
    /// Resolves the declaration against `accounts`: for each declared
    /// resource, in declared order, the position in `accounts` of the handle
    /// that the pool holds for it. The first declared identifier without a
    /// handle ends the resolution with `NotFound`, and no positions are given.
    pub fn match_accounts(&self, accounts: &[ResourceHandle]) -> (result: Result<
        Vec<usize>,
        CallError,
    >)
        ensures
            result is Ok <==> all_registered(self@, accounts@),
            match result {
                Ok(slots) => Ok::<Seq<usize>, CallError>(slots@) == resolve_spec(
                    self@,
                    accounts@,
                ),
                Err(e) => Err::<Seq<usize>, CallError>(e) == resolve_spec(self@, accounts@),
            },
    {
        let pool = CandidatePool::from_handles(accounts);
        let mut slots: Vec<usize> = Vec::new();
        let mut k: usize = 0;
        while k < self.accounts.len()
            invariant
                pool@ == accounts@,
                k <= self.accounts@.len(),
                slots@.len() == k,
                forall|j: int|
                    0 <= j < k ==> slot_of(accounts@, (#[trigger] self.accounts@[j]).pubkey)
                        == Some(slots@[j] as int),
            decreases self.accounts@.len() - k,
        {
            match pool.lookup(&self.accounts[k].pubkey) {
                Some(slot) => {
                    slots.push(slot);
                },
                None => {
                    proof {
                        assert(first_missing(self@, accounts@, k as int));
                        lemma_first_missing_unique(self@, accounts@, k as int);
                    }
                    return Err(CallError::NotFound(self.accounts[k].pubkey));
                },
            }
            k += 1;
        }
        assert(slots@ =~= resolved_slots(self@, accounts@));
        Ok(slots)
    }
}

} // verus!
