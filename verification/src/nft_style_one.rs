//! What a program of collections declares for a transfer of one of its
//! items.

use vstd::prelude::*;
use vstd::utf8::*;
use crate::address::{derived_address, find_address, seeds_view, text_seed};
use crate::identifier::ResourceIdentifier;
use crate::payload::{read_only, IAccountMeta, PreflightPayload};

verus! {

/// The address under which the program `program_id` emits its events: it is
/// derived from the program's own bytes and a fixed text.
pub open spec fn event_authority(program_id: ResourceIdentifier) -> Option<ResourceIdentifier> {
    derived_address(seq![program_id.bytes@, encode_utf8("__event_authority"@)], program_id)
}

/// What the program declares for the transfer of an item of `collection`:
/// the collection, the address of its events, and itself, each read-only and
/// without signature.
pub open spec fn declaration(collection: ResourceIdentifier, program_id: ResourceIdentifier) -> Option<
    Seq<IAccountMeta>,
> {
    match event_authority(program_id) {
        Some(authority) => Some(
            seq![read_only(collection), read_only(authority), read_only(program_id)],
        ),
        None => None,
    }
}

/// The dry run of a transfer: the program's declaration, or nothing where
/// the address of its events cannot be derived.
pub fn preflight_transfer(collection: &ResourceIdentifier, program_id: &ResourceIdentifier) -> (declared:
    Option<PreflightPayload>)
    ensures
        match declared {
            Some(payload) => declaration(*collection, *program_id) == Some(payload@),
            None => declaration(*collection, *program_id) is None,
        },
{
    let mut own: Vec<u8> = Vec::new();
    own.extend_from_slice(&program_id.bytes);
    assert(own@ =~= program_id.bytes@);
    let mut seeds: Vec<Vec<u8>> = Vec::new();
    seeds.push(own);
    seeds.push(text_seed("__event_authority"));
    assert(seeds_view(seeds@) =~= seq![program_id.bytes@, encode_utf8("__event_authority"@)]);
    match find_address(&seeds, program_id) {
        Some(authority) => {
            let mut accounts: Vec<IAccountMeta> = Vec::new();
            accounts.push(IAccountMeta { pubkey: *collection, signer: false, writable: false });
            accounts.push(IAccountMeta { pubkey: authority, signer: false, writable: false });
            accounts.push(IAccountMeta { pubkey: *program_id, signer: false, writable: false });
            assert(accounts@ =~= declaration(*collection, *program_id).unwrap());
            Some(PreflightPayload { accounts })
        },
        None => None,
    }
}

} // verus!
