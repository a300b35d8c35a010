//! Addresses that a program derives from seeds: no key pair stands behind
//! them, and the host lets the program sign for them.

use vstd::prelude::*;
use vstd::string::*;
use vstd::utf8::*;
use crate::identifier::ResourceIdentifier;

verus! {

/// The address and the bump seed that
/// `anchor_lang::prelude::Pubkey::try_find_program_address` finds for
/// `seeds` under the program `program_id`, if it finds any.
pub uninterp spec fn program_address(seeds: Seq<Seq<u8>>, program_id: Seq<u8>) -> Option<
    (Seq<u8>, u8),
>;

/// The seeds as sequences of bytes.
pub open spec fn seeds_view(seeds: Seq<Vec<u8>>) -> Seq<Seq<u8>> {
    Seq::new(seeds.len(), |i: int| seeds[i]@)
}

/// The bytes of a found address, with its bump seed.
pub open spec fn found_view(found: Option<(ResourceIdentifier, u8)>) -> Option<(Seq<u8>, u8)> {
    match found {
        Some((address, bump)) => Some((address.bytes@, bump)),
        None => None,
    }
}

/// Calls `anchor_lang::prelude::Pubkey::try_find_program_address`. What it
/// finds depends on the seeds and the program alone; the contract names it
/// `program_address` and claims nothing else.
#[verifier::external_body]
fn try_find_program_address(seeds: &Vec<Vec<u8>>, program_id: &ResourceIdentifier) -> (found:
    Option<(ResourceIdentifier, u8)>)
    ensures
        found_view(found) == program_address(seeds_view(seeds@), program_id.bytes@),
{
    let seeds: Vec<&[u8]> = seeds.iter().map(|seed| seed.as_slice()).collect();
    let program_id = anchor_lang::prelude::Pubkey::new_from_array(program_id.bytes);
    anchor_lang::prelude::Pubkey::try_find_program_address(&seeds, &program_id).map(
        |(address, bump)| (ResourceIdentifier { bytes: address.to_bytes() }, bump),
    )
}

/// The address derived from `seeds` under `program_id`, if there is one.
pub open spec fn derived_address(seeds: Seq<Seq<u8>>, program_id: ResourceIdentifier) -> Option<
    ResourceIdentifier,
> {
    match program_address(seeds, program_id.bytes@) {
        Some((bytes, _)) => Some(ResourceIdentifier::from_seq(bytes)),
        None => None,
    }
}

/// Derives the address of `seeds` under `program_id`. There is none where
/// no bump seed leads to an address.
pub fn find_address(seeds: &Vec<Vec<u8>>, program_id: &ResourceIdentifier) -> (address: Option<
    ResourceIdentifier,
>)
    ensures
        address == derived_address(seeds_view(seeds@), *program_id),
{
    match try_find_program_address(seeds, program_id) {
        Some((address, _)) => {
            proof {
                ResourceIdentifier::lemma_from_seq(address.bytes@);
            }
            Some(address)
        },
        None => None,
    }
}

/// The bytes of `text`, as a seed.
pub fn text_seed(text: &str) -> (seed: Vec<u8>)
    ensures
        seed@ == encode_utf8(text@),
{
    let mut seed: Vec<u8> = Vec::new();
    seed.extend_from_slice(text.as_bytes());
    seed
}

} // verus!
