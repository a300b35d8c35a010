//! A target for measuring the two-phase call. Its dry run declares the
//! address of its events, itself, and as many derived resources as it is
//! asked for; its main handler checks that it was handed exactly the derived
//! resources, in declared order.

use vstd::prelude::*;
use vstd::utf8::*;
use crate::address::{derived_address, find_address, seeds_view, text_seed};
use crate::identifier::ResourceIdentifier;
use crate::matcher::{lemma_slot_of, resolve_spec, slot_of, ResourceHandle};
use crate::payload::{le32, read_only, IAccountMeta, PreflightPayload};

verus! {

/// The seeds of the derived resource number `num`.
pub open spec fn key_seeds(num: u32) -> Seq<Seq<u8>> {
    seq![encode_utf8("key"@), le32(num as nat)]
}

/// The derived resource number `num` of the target `program_id`.
pub open spec fn key_of(num: u32, program_id: ResourceIdentifier) -> Option<ResourceIdentifier> {
    derived_address(key_seeds(num), program_id)
}

/// The address under which the target `program_id` emits its events.
pub open spec fn event_authority(program_id: ResourceIdentifier) -> Option<ResourceIdentifier> {
    derived_address(seq![encode_utf8("__event_authority"@)], program_id)
}

/// Whether each of the first `num_accounts` derived resources has an address.
pub open spec fn all_derivable(num_accounts: u32, program_id: ResourceIdentifier) -> bool {
    forall|i: u32| i < num_accounts ==> (#[trigger] key_of(i, program_id)) is Some
}

/// The first `num_accounts` derived resources, each declared read-only and
/// without signature.
pub open spec fn created_accounts(num_accounts: u32, program_id: ResourceIdentifier) -> Option<
    Seq<IAccountMeta>,
> {
    if all_derivable(num_accounts, program_id) {
        Some(
            Seq::new(
                num_accounts as nat,
                |i: int| read_only(key_of(i as u32, program_id).unwrap()),
            ),
        )
    } else {
        None
    }
}

/// What the target declares: the address of its events, itself, then the
/// derived resources.
pub open spec fn declaration(program_id: ResourceIdentifier, num_accounts: u32) -> Option<
    Seq<IAccountMeta>,
> {
    match (event_authority(program_id), created_accounts(num_accounts, program_id)) {
        (Some(authority), Some(created)) => Some(
            seq![read_only(authority), read_only(program_id)] + created,
        ),
        _ => None,
    }
}

/// The four bytes of `n`, least significant first.
fn le_bytes(n: u32) -> (bytes: Vec<u8>)
    ensures
        bytes@ == le32(n as nat),
{
    let mut bytes: Vec<u8> = Vec::new();
    bytes.push((n % 256) as u8);
    bytes.push((n / 256 % 256) as u8);
    bytes.push((n / 256 / 256 % 256) as u8);
    bytes.push((n / 256 / 256 / 256 % 256) as u8);
    assert(bytes@ =~= le32(n as nat));
    bytes
}

/// Derives the resource number `num` of the target `program_id`. There is
/// none where no bump seed leads to an address.
pub fn get_pubkey(num: u32, program_id: &ResourceIdentifier) -> (key: Option<ResourceIdentifier>)
    ensures
        key == key_of(num, *program_id),
{
    let mut seeds: Vec<Vec<u8>> = Vec::new();
    seeds.push(text_seed("key"));
    seeds.push(le_bytes(num));
    assert(seeds_view(seeds@) =~= key_seeds(num));
    find_address(&seeds, program_id)
}

/// Declares the first `num_accounts` derived resources of the target
/// `program_id`, or nothing where one of them has no address.
pub fn create_accounts(num_accounts: u32, program_id: &ResourceIdentifier) -> (accounts: Option<
    Vec<IAccountMeta>,
>)
    ensures
        match accounts {
            Some(list) => created_accounts(num_accounts, *program_id) == Some(list@),
            None => created_accounts(num_accounts, *program_id) is None,
        },
{
    let mut accounts: Vec<IAccountMeta> = Vec::new();
    let mut idx: u32 = 0;
    while idx < num_accounts
        invariant
            idx <= num_accounts,
            accounts@.len() == idx,
            forall|i: u32| i < idx ==> (#[trigger] key_of(i, *program_id)) is Some,
            forall|i: int|
                0 <= i < idx ==> accounts@[i] == read_only(
                    key_of(i as u32, *program_id).unwrap(),
                ),
        decreases num_accounts - idx,
    {
        match get_pubkey(idx, program_id) {
            Some(pubkey) => {
                accounts.push(IAccountMeta { pubkey, signer: false, writable: false });
            },
            None => {
                return None;
            },
        }
        idx += 1;
    }
    assert(accounts@ =~= created_accounts(num_accounts, *program_id).unwrap());
    Some(accounts)
}

/// The dry run of the target `program_id`: its declaration, or nothing where
/// one of the declared resources has no address.
pub fn preflight_transfer(program_id: &ResourceIdentifier, num_accounts: u32) -> (declared: Option<
    PreflightPayload,
>)
    ensures
        match declared {
            Some(payload) => declaration(*program_id, num_accounts) == Some(payload@),
            None => declaration(*program_id, num_accounts) is None,
        },
{
    let mut seeds: Vec<Vec<u8>> = Vec::new();
    seeds.push(text_seed("__event_authority"));
    assert(seeds_view(seeds@) =~= seq![encode_utf8("__event_authority"@)]);
    let authority = match find_address(&seeds, program_id) {
        Some(authority) => authority,
        None => {
            return None;
        },
    };
    let created = match create_accounts(num_accounts, program_id) {
        Some(created) => created,
        None => {
            return None;
        },
    };
    let mut accounts: Vec<IAccountMeta> = Vec::new();
    accounts.push(IAccountMeta { pubkey: authority, signer: false, writable: false });
    accounts.push(IAccountMeta { pubkey: *program_id, signer: false, writable: false });
    let mut i: usize = 0;
    while i < created.len()
        invariant
            i <= created@.len(),
            accounts@ == seq![read_only(authority), read_only(*program_id)] + created@.take(
                i as int,
            ),
        decreases created@.len() - i,
    {
        accounts.push(created[i]);
        assert(created@.take(i as int).push(created@[i as int]) =~= created@.take(i + 1));
        i += 1;
    }
    assert(created@.take(created@.len() as int) =~= created@);
    Some(PreflightPayload { accounts })
}

/// Why the main handler refuses what it was handed.
#[derive(Clone, Copy, Debug, PartialEq, Eq)]
pub enum Rejection {
    /// Nothing was handed in for the derived resource of this number.
    MissingAccount(u32),
    /// The derived resource of this number has no address.
    NoAddress(u32),
    /// What was handed in for the derived resource of this number is
    /// another resource.
    InvalidAccount(u32),
}

/// What is wrong with position `idx` of `remaining_accounts`, if anything:
/// the handle there must be bound to the derived resource number `idx`.
pub open spec fn fault_at(
    program_id: ResourceIdentifier,
    remaining_accounts: Seq<ResourceHandle>,
    idx: u32,
) -> Option<Rejection> {
    if idx >= remaining_accounts.len() {
        Some(Rejection::MissingAccount(idx))
    } else {
        match key_of(idx, program_id) {
            None => Some(Rejection::NoAddress(idx)),
            Some(key) => if remaining_accounts[idx as int].key != key {
                Some(Rejection::InvalidAccount(idx))
            } else {
                None
            },
        }
    }
}

/// Whether `idx` is the first of the first `num_accounts` positions with a
/// fault.
pub open spec fn first_fault(
    program_id: ResourceIdentifier,
    remaining_accounts: Seq<ResourceHandle>,
    num_accounts: u32,
    idx: u32,
) -> bool {
    &&& idx < num_accounts
    &&& fault_at(program_id, remaining_accounts, idx) is Some
    &&& forall|i: u32| i < idx ==> (#[trigger] fault_at(program_id, remaining_accounts, i)) is None
}

/// What the main handler answers: success where the first `num_accounts`
/// handles are bound, in order, to the derived resources; else the fault of
/// the first position that has one.
pub open spec fn transfer_spec(
    program_id: ResourceIdentifier,
    remaining_accounts: Seq<ResourceHandle>,
    num_accounts: u32,
) -> Result<(), Rejection> {
    if forall|i: u32|
        i < num_accounts ==> (#[trigger] fault_at(program_id, remaining_accounts, i)) is None {
        Ok(())
    } else {
        let idx = choose|idx: u32| first_fault(program_id, remaining_accounts, num_accounts, idx);
        Err(fault_at(program_id, remaining_accounts, idx).unwrap())
    }
}

/// The target accepts what a caller resolves for it: where the candidates
/// hold every resource of the target's declaration, the handles that the
/// caller binds to the derived resources, in the order of the declaration,
/// pass the main handler.
pub proof fn lemma_resolved_accounts_are_accepted(
    program_id: ResourceIdentifier,
    num_accounts: u32,
    pool: Seq<ResourceHandle>,
)
    requires
        pool.len() <= usize::MAX,
        declaration(program_id, num_accounts) is Some,
        resolve_spec(declaration(program_id, num_accounts).unwrap(), pool) is Ok,
    ensures
        ({
            let slots = resolve_spec(declaration(program_id, num_accounts).unwrap(), pool).unwrap();
            let handed = Seq::new(num_accounts as nat, |i: int| pool[slots[i + 2] as int]);
            transfer_spec(program_id, handed, num_accounts) == Ok::<(), Rejection>(())
        }),
{
    let declared = declaration(program_id, num_accounts).unwrap();
    let slots = resolve_spec(declared, pool).unwrap();
    let handed = Seq::new(num_accounts as nat, |i: int| pool[slots[i + 2] as int]);
    assert forall|i: u32| i < num_accounts implies (#[trigger] fault_at(program_id, handed, i))
        is None by {
        assert(key_of(i, program_id) is Some);
        let key = key_of(i, program_id).unwrap();
        assert(declared[i + 2] == read_only(key));
        assert(slot_of(pool, declared[i + 2].pubkey) is Some);
        lemma_slot_of(pool, key);
        assert(slots[i + 2] as int == slot_of(pool, key).unwrap());
    }
}

/// The main handler of the target `program_id`: checks that the first
/// `num_accounts` handles of `remaining_accounts` are bound, in order, to the
/// derived resources.
pub fn transfer(
    program_id: &ResourceIdentifier,
    remaining_accounts: &[ResourceHandle],
    num_accounts: u32,
) -> (result: Result<(), Rejection>)
    ensures
        result == transfer_spec(*program_id, remaining_accounts@, num_accounts),
{
    let mut idx: u32 = 0;
    while idx < num_accounts
        invariant
            idx <= num_accounts,
            forall|i: u32|
                i < idx ==> (#[trigger] fault_at(*program_id, remaining_accounts@, i)) is None,
        decreases num_accounts - idx,
    {
        let fault = if idx as usize >= remaining_accounts.len() {
            Some(Rejection::MissingAccount(idx))
        } else {
            match get_pubkey(idx, program_id) {
                None => Some(Rejection::NoAddress(idx)),
                Some(key) => if remaining_accounts[idx as usize].key != key {
                    Some(Rejection::InvalidAccount(idx))
                } else {
                    None
                },
            }
        };
        assert(fault == fault_at(*program_id, remaining_accounts@, idx));
        match fault {
            Some(rejection) => {
                proof {
                    assert(first_fault(*program_id, remaining_accounts@, num_accounts, idx));
                    let chosen = choose|c: u32|
                        first_fault(*program_id, remaining_accounts@, num_accounts, c);
                    if chosen < idx {
                        assert(fault_at(*program_id, remaining_accounts@, chosen) is None);
                    }
                    if idx < chosen {
                        assert(fault_at(*program_id, remaining_accounts@, idx) is None);
                    }
                }
                return Err(rejection);
            },
            None => {},
        }
        idx += 1;
    }
    Ok(())
}

} // verus!
