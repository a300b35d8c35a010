//! The `transfer` interface: the static resources that a caller declares
//! for it, with a real signer or with a derived address as the authority.

use vstd::prelude::*;
use crate::invocation::{InterfaceAccounts, ResourceMeta};
use crate::matcher::ResourceHandle;

verus! {

/// The static resources of a transfer whose authority signs for itself.
#[derive(Clone, Copy, Debug, PartialEq, Eq)]
pub struct ITransfer {
    pub owner: ResourceHandle,
    pub destination: ResourceHandle,
    pub authority: ResourceHandle,
    pub asset: ResourceHandle,
}

impl InterfaceAccounts for ITransfer {
    /// Every resource is announced with the flags of its handle, whatever
    /// the caller sets.
    open spec fn account_metas(&self, is_signer: Option<bool>) -> Seq<ResourceMeta> {
        seq![
            self.owner.account_meta(None),
            self.destination.account_meta(None),
            self.authority.account_meta(None),
            self.asset.account_meta(None),
        ]
    }

    open spec fn account_infos(&self) -> Seq<ResourceHandle> {
        seq![self.owner, self.destination, self.authority, self.asset]
    }

    fn to_account_metas(&self, is_signer: Option<bool>) -> (metas: Vec<ResourceMeta>) {
        let mut metas: Vec<ResourceMeta> = Vec::new();
        metas.push(self.owner.to_account_meta(None));
        metas.push(self.destination.to_account_meta(None));
        metas.push(self.authority.to_account_meta(None));
        metas.push(self.asset.to_account_meta(None));
        assert(metas@ =~= self.account_metas(is_signer));
        metas
    }

    fn to_account_infos(&self) -> (infos: Vec<ResourceHandle>) {
        let mut infos: Vec<ResourceHandle> = Vec::new();
        infos.push(self.owner);
        infos.push(self.destination);
        infos.push(self.authority);
        infos.push(self.asset);
        assert(infos@ =~= self.account_infos());
        infos
    }
}

/// When a derived address is announced as a signer although its handle does
/// not say so.
#[derive(Clone, Copy, Debug, PartialEq, Eq)]
pub enum SignerOverride {
    /// Always.
    Always,
    /// Unless the caller sets a signer flag itself, which then stands.
    IfUnset,
}

impl SignerOverride {
    /// The signer flag of the derived address, given the flag that the
    /// caller sets.
    pub open spec fn authority_signs(self, is_signer: Option<bool>) -> bool {
        match self {
            SignerOverride::Always => true,
            SignerOverride::IfUnset => match is_signer {
                Some(flag) => flag,
                None => true,
            },
        }
    }

    /// Computes the signer flag of the derived address.
    pub fn signs(self, is_signer: Option<bool>) -> (flag: bool)
        ensures
            flag == self.authority_signs(is_signer),
    {
        match self {
            SignerOverride::Always => true,
            SignerOverride::IfUnset => match is_signer {
                Some(flag) => flag,
                None => true,
            },
        }
    }
}

/// The static resources of a transfer whose authority is a derived address:
/// the host takes the seeds of the call in place of its signature.
#[derive(Clone, Copy, Debug, PartialEq, Eq)]
pub struct ITransferPda {
    pub owner: ResourceHandle,
    pub destination: ResourceHandle,
    pub authority: ResourceHandle,
    pub asset: ResourceHandle,
    /// When the authority is announced as a signer.
    pub signer_override: SignerOverride,
}

impl InterfaceAccounts for ITransferPda {
    /// The authority's signer flag follows the override and never its
    /// handle; the other resources take the flag that the caller sets or,
    /// where it sets none, that of their handle.
    open spec fn account_metas(&self, is_signer: Option<bool>) -> Seq<ResourceMeta> {
        seq![
            self.owner.account_meta(is_signer),
            self.destination.account_meta(is_signer),
            self.authority.account_meta(Some(self.signer_override.authority_signs(is_signer))),
            self.asset.account_meta(is_signer),
        ]
    }

    open spec fn account_infos(&self) -> Seq<ResourceHandle> {
        seq![self.owner, self.destination, self.authority, self.asset]
    }

    fn to_account_metas(&self, is_signer: Option<bool>) -> (metas: Vec<ResourceMeta>) {
        let pda_is_auth = self.signer_override.signs(is_signer);
        let mut metas: Vec<ResourceMeta> = Vec::new();
        metas.push(self.owner.to_account_meta(is_signer));
        metas.push(self.destination.to_account_meta(is_signer));
        metas.push(self.authority.to_account_meta(Some(pda_is_auth)));
        metas.push(self.asset.to_account_meta(is_signer));
        assert(metas@ =~= self.account_metas(is_signer));
        metas
    }

    fn to_account_infos(&self) -> (infos: Vec<ResourceHandle>) {
        let mut infos: Vec<ResourceHandle> = Vec::new();
        infos.push(self.owner);
        infos.push(self.destination);
        infos.push(self.authority);
        infos.push(self.asset);
        assert(infos@ =~= self.account_infos());
        infos
    }
}

} // verus!
