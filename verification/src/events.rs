//! Records that announce the creation and the update of collections and of
//! their items. The data of a record starts with a discriminator that tells
//! the two kinds apart.

use vstd::prelude::*;
use crate::error::CallError;
use crate::identifier::ResourceIdentifier;
use crate::selector::{
    lemma_distinct_texts_have_distinct_preimages,
    selector,
    selector_preimage,
    selector_spec,
};

verus! {

/// A collection, as announced.
#[derive(Clone, Debug, PartialEq, Eq)]
pub struct NftCollectionAsset {
    pub asset_id: ResourceIdentifier,
    pub authority: ResourceIdentifier,
    pub pubkeys: Vec<ResourceIdentifier>,
    pub data: Vec<u8>,
}

/// An item of a collection, as announced.
#[derive(Clone, Debug, PartialEq, Eq)]
pub struct NftMetadataAsset {
    pub asset_id: ResourceIdentifier,
    pub authority: ResourceIdentifier,
    pub collection: ResourceIdentifier,
    pub delegate: ResourceIdentifier,
    pub pubkeys: Vec<ResourceIdentifier>,
    pub data: Vec<u8>,
}

/// The record of a creation.
#[derive(Clone, Debug, PartialEq, Eq)]
pub struct CudCreate {
    pub asset_id: ResourceIdentifier,
    pub authority: ResourceIdentifier,
    pub pubkeys: Vec<ResourceIdentifier>,
    pub data: Vec<u8>,
}

/// The record of an update.
#[derive(Clone, Debug, PartialEq, Eq)]
pub struct CudUpdate {
    pub asset_id: ResourceIdentifier,
    pub authority: ResourceIdentifier,
    pub pubkeys: Vec<ResourceIdentifier>,
    pub data: Vec<u8>,
}

/// The discriminator of a collection's data.
pub open spec fn collection_discriminator() -> Seq<u8> {
    selector_spec("srfc19"@, "collection"@)
}

/// The discriminator of an item's data.
pub open spec fn metadata_discriminator() -> Seq<u8> {
    selector_spec("srfc19"@, "metadata"@)
}

/// The two discriminators hash different bytes: the texts behind them
/// differ in length. Whether the discriminators differ is then a matter of
/// the digest alone.
pub proof fn lemma_discriminators_have_distinct_preimages()
    ensures
        selector_preimage("srfc19"@, "collection"@) != selector_preimage(
            "srfc19"@,
            "metadata"@,
        ),
{
    reveal_strlit("collection");
    reveal_strlit("metadata");
    lemma_distinct_texts_have_distinct_preimages(
        "srfc19"@,
        "collection"@,
        "srfc19"@,
        "metadata"@,
    );
}

/// The identifiers that the record of an item lists: its collection, its
/// delegate, then its own.
pub open spec fn metadata_pubkeys(asset: NftMetadataAsset) -> Seq<ResourceIdentifier> {
    seq![asset.collection, asset.delegate] + asset.pubkeys@
}

/// The discriminator of a collection's data. Always succeeds.
pub fn get_collection_discriminator() -> (result: Result<Vec<u8>, CallError>)
    ensures
        result matches Ok(data) && data@ == collection_discriminator() && data@.len() == 8,
{
    let disc = selector("srfc19", "collection");
    let mut data: Vec<u8> = Vec::new();
    data.extend_from_slice(&disc);
    assert(data@ =~= disc@);
    Ok(data)
}

/// The discriminator of an item's data. Always succeeds.
pub fn get_metadata_discriminator() -> (result: Result<Vec<u8>, CallError>)
    ensures
        result matches Ok(data) && data@ == metadata_discriminator() && data@.len() == 8,
{
    let disc = selector("srfc19", "metadata");
    let mut data: Vec<u8> = Vec::new();
    data.extend_from_slice(&disc);
    assert(data@ =~= disc@);
    Ok(data)
}

/// `head` followed by `tail`.
fn prefixed(head: Vec<u8>, tail: &Vec<u8>) -> (data: Vec<u8>)
    ensures
        data@ == head@ + tail@,
{
    let mut data = head;
    data.extend_from_slice(tail.as_slice());
    data
}

/// The identifiers that the record of `asset` lists.
fn item_pubkeys(asset: &NftMetadataAsset) -> (pubkeys: Vec<ResourceIdentifier>)
    ensures
        pubkeys@ == metadata_pubkeys(*asset),
{
    let mut pubkeys: Vec<ResourceIdentifier> = Vec::new();
    pubkeys.push(asset.collection);
    pubkeys.push(asset.delegate);
    let mut i: usize = 0;
    while i < asset.pubkeys.len()
        invariant
            i <= asset.pubkeys@.len(),
            pubkeys@ == seq![asset.collection, asset.delegate] + asset.pubkeys@.take(i as int),
        decreases asset.pubkeys@.len() - i,
    {
        pubkeys.push(asset.pubkeys[i]);
        assert(asset.pubkeys@.take(i as int).push(asset.pubkeys@[i as int]) =~= asset.pubkeys@.take(
            i + 1,
        ));
        i += 1;
    }
    assert(asset.pubkeys@.take(asset.pubkeys@.len() as int) =~= asset.pubkeys@);
    pubkeys
}

/// The record that announces the creation of the collection `asset`: its
/// data behind the discriminator of collections.
pub fn emit_create_nft_collection(asset: NftCollectionAsset) -> (result: Result<
    CudCreate,
    CallError,
>)
    ensures
        result matches Ok(event) && event.authority == asset.authority && event.asset_id
            == asset.asset_id && event.pubkeys@ == asset.pubkeys@ && event.data@
            == collection_discriminator() + asset.data@,
{
    let disc = match get_collection_discriminator() {
        Ok(disc) => disc,
        Err(e) => {
            return Err(e);
        },
    };
    let data = prefixed(disc, &asset.data);
    Ok(
        CudCreate {
            authority: asset.authority,
            asset_id: asset.asset_id,
            pubkeys: asset.pubkeys,
            data,
        },
    )
}

/// The record that announces the update of the collection `asset`: its data
/// behind the discriminator of collections.
pub fn emit_update_nft_collection(asset: NftCollectionAsset) -> (result: Result<
    CudUpdate,
    CallError,
>)
    ensures
        result matches Ok(event) && event.authority == asset.authority && event.asset_id
            == asset.asset_id && event.pubkeys@ == asset.pubkeys@ && event.data@
            == collection_discriminator() + asset.data@,
{
    let disc = match get_collection_discriminator() {
        Ok(disc) => disc,
        Err(e) => {
            return Err(e);
        },
    };
    let data = prefixed(disc, &asset.data);
    Ok(
        CudUpdate {
            authority: asset.authority,
            asset_id: asset.asset_id,
            pubkeys: asset.pubkeys,
            data,
        },
    )
}

/// The record that announces the creation of the item `asset`: its data
/// behind the discriminator of items, and its collection and delegate in
/// front of its identifiers.
pub fn emit_create_nft_metadata(asset: NftMetadataAsset) -> (result: Result<CudCreate, CallError>)
    ensures
        result matches Ok(event) && event.authority == asset.authority && event.asset_id
            == asset.asset_id && event.pubkeys@ == metadata_pubkeys(asset) && event.data@
            == metadata_discriminator() + asset.data@,
{
    let disc = match get_metadata_discriminator() {
        Ok(disc) => disc,
        Err(e) => {
            return Err(e);
        },
    };
    let data = prefixed(disc, &asset.data);
    let pubkeys = item_pubkeys(&asset);
    Ok(CudCreate { authority: asset.authority, asset_id: asset.asset_id, pubkeys, data })
}

/// The record that announces the update of the item `asset`: its data behind
/// the discriminator of items, and its collection and delegate in front of
/// its identifiers.
pub fn emit_update_nft_metadata(asset: NftMetadataAsset) -> (result: Result<CudUpdate, CallError>)
    ensures
        result matches Ok(event) && event.authority == asset.authority && event.asset_id
            == asset.asset_id && event.pubkeys@ == metadata_pubkeys(asset) && event.data@
            == metadata_discriminator() + asset.data@,
{
    let disc = match get_metadata_discriminator() {
        Ok(disc) => disc,
        Err(e) => {
            return Err(e);
        },
    };
    let data = prefixed(disc, &asset.data);
    let pubkeys = item_pubkeys(&asset);
    Ok(CudUpdate { authority: asset.authority, asset_id: asset.asset_id, pubkeys, data })
}

} // verus!
