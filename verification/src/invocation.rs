//! The invocations of both phases: the metas that tag each resource with the
//! permissions the target gets, the list of handles in the same order, and
//! the buffer made of the selector and the arguments.

use vstd::prelude::*;
use vstd::string::*;
use crate::address::seeds_view;
use crate::error::CallError;
use crate::identifier::ResourceIdentifier;
use crate::matcher::{
    all_registered,
    holds_at,
    lemma_resolution_goes_by_identifier,
    lemma_slot_of,
    resolve_spec,
    slot_of,
    ResourceHandle,
};
use crate::payload::{IAccountMeta, PreflightPayload};
use crate::selector::{
    lemma_distinct_texts_have_distinct_preimages,
    selector,
    selector_preimage,
    selector_spec,
    selector_text,
};

verus! {

/// How one resource is announced to the target: its identifier and the
/// permissions that the target gets on it.
#[derive(Clone, Copy, Debug, PartialEq, Eq)]
pub struct ResourceMeta {
    pub pubkey: ResourceIdentifier,
    pub is_signer: bool,
    pub is_writable: bool,
}

/// Where the host finds a handle: among the handles that the caller declared
/// statically, or among the candidates.
#[derive(Clone, Copy, Debug, PartialEq, Eq)]
pub enum HandleRef {
    /// Position in the list that `to_account_infos` gives.
    Static(usize),
    /// Position in the context's `remaining_accounts`.
    Candidate(usize),
}

/// Seeds and bump of an address that the host accepts as a signer of this
/// call without a signature.
#[derive(Clone, Debug, PartialEq, Eq)]
pub struct SigningAuthority {
    pub seeds: Vec<Vec<u8>>,
    pub bump: u8,
}

/// A signing authority, with the seeds as sequences.
pub struct SigningAuthorityView {
    pub seeds: Seq<Seq<u8>>,
    pub bump: u8,
}

impl View for SigningAuthority {
    type V = SigningAuthorityView;

    open spec fn view(&self) -> SigningAuthorityView {
        SigningAuthorityView { seeds: seeds_view(self.seeds@), bump: self.bump }
    }
}

/// The view of an optional signing authority.
pub open spec fn authority_view(authority: Option<SigningAuthority>) -> Option<
    SigningAuthorityView,
> {
    match authority {
        Some(a) => Some(a@),
        None => None,
    }
}

/// The seeds that the host is handed for an authority: its seeds, then the
/// bump as a seed of one byte.
pub open spec fn host_seeds(authority: SigningAuthorityView) -> Seq<Seq<u8>> {
    authority.seeds.push(seq![authority.bump])
}

/// The authority that the host's seeds spell, where their last seed is a
/// bump: a single byte.
pub open spec fn authority_of(seeds: Seq<Seq<u8>>) -> Option<SigningAuthorityView> {
    if seeds.len() > 0 && seeds.last().len() == 1 {
        Some(SigningAuthorityView { seeds: seeds.drop_last(), bump: seeds.last()[0] })
    } else {
        None
    }
}

/// The two forms of an authority are converted into each other without
/// loss.
pub proof fn lemma_host_seeds(authority: SigningAuthorityView, seeds: Seq<Seq<u8>>)
    ensures
        authority_of(host_seeds(authority)) == Some(authority),
        authority_of(seeds) matches Some(spelled) ==> host_seeds(spelled) == seeds,
{
    let handed = host_seeds(authority);
    assert(handed.drop_last() =~= authority.seeds);
    assert(handed.last() == seq![authority.bump]);
    if let Some(spelled) = authority_of(seeds) {
        assert(seq![seeds.last()[0]] =~= seeds.last());
        assert(host_seeds(spelled) =~= seeds);
    }
}

impl SigningAuthority {
    /// The authority that the host's `seeds` spell. There is none where the
    /// last seed is not a bump.
    pub fn from_seeds(seeds: Vec<Vec<u8>>) -> (authority: Option<SigningAuthority>)
        ensures
            authority_view(authority) == authority_of(seeds_view(seeds@)),
    {
        let mut seeds = seeds;
        let ghost handed = seeds@;
        if seeds.len() == 0 {
            return None;
        }
        let last = seeds.len() - 1;
        if seeds[last].len() != 1 {
            return None;
        }
        let bump = seeds[last][0];
        seeds.pop();
        let authority = SigningAuthority { seeds, bump };
        assert(authority@.seeds =~= seeds_view(handed).drop_last());
        Some(authority)
    }

    /// The seeds that the host is handed for this authority.
    pub fn to_seeds(&self) -> (seeds: Vec<Vec<u8>>)
        ensures
            seeds_view(seeds@) == host_seeds(self@),
    {
        let SigningAuthority { seeds, bump } = self.duplicate();
        let mut seeds = seeds;
        let ghost own = seeds@;
        let mut last: Vec<u8> = Vec::new();
        last.push(bump);
        seeds.push(last);
        assert(last@ =~= seq![bump]);
        assert(seeds_view(seeds@) =~= seeds_view(own).push(seq![bump]));
        seeds
    }

    /// A copy with the same seeds and bump.
    pub fn duplicate(&self) -> (copy: SigningAuthority)
        ensures
            copy@ == self@,
    {
        let mut seeds: Vec<Vec<u8>> = Vec::new();
        let mut i: usize = 0;
        while i < self.seeds.len()
            invariant
                i <= self.seeds@.len(),
                seeds@.len() == i,
                forall|j: int| 0 <= j < i ==> (#[trigger] seeds@[j])@ == self.seeds@[j]@,
            decreases self.seeds@.len() - i,
        {
            let mut seed: Vec<u8> = Vec::new();
            seed.extend_from_slice(self.seeds[i].as_slice());
            assert(seed@ =~= self.seeds@[i as int]@);
            seeds.push(seed);
            i += 1;
        }
        let copy = SigningAuthority { seeds, bump: self.bump };
        assert(copy@.seeds =~= self@.seeds);
        copy
    }
}

/// One nested call, ready for the host to dispatch.
#[derive(Clone, Debug, PartialEq, Eq)]
pub struct Invocation {
    /// The target.
    pub program_id: ResourceIdentifier,
    /// The metas of the resources, static ones first.
    pub accounts: Vec<ResourceMeta>,
    /// The selector, then the arguments.
    pub data: Vec<u8>,
    /// The handles of the resources, static ones first.
    pub handles: Vec<HandleRef>,
    /// The derived address that signs, if one does.
    pub signer_seeds: Option<SigningAuthority>,
}

/// An invocation, with its lists as sequences.
pub struct InvocationView {
    pub program_id: ResourceIdentifier,
    pub accounts: Seq<ResourceMeta>,
    pub data: Seq<u8>,
    pub handles: Seq<HandleRef>,
    pub signer_seeds: Option<SigningAuthorityView>,
}

impl View for Invocation {
    type V = InvocationView;

    open spec fn view(&self) -> InvocationView {
        InvocationView {
            program_id: self.program_id,
            accounts: self.accounts@,
            data: self.data@,
            handles: self.handles@,
            signer_seeds: authority_view(self.signer_seeds),
        }
    }
}

/// The resources that a caller declares statically for an interface
/// function: their metas, for a given signer flag, and their handles.
pub trait InterfaceAccounts {
    /// The metas of the static resources. `is_signer` is the flag that the
    /// caller sets for them, or `None` where it sets none.
    spec fn account_metas(&self, is_signer: Option<bool>) -> Seq<ResourceMeta>;

    /// The handles of the static resources.
    spec fn account_infos(&self) -> Seq<ResourceHandle>;

    /// Computes the metas of the static resources.
    fn to_account_metas(&self, is_signer: Option<bool>) -> (metas: Vec<ResourceMeta>)
        ensures
            metas@ == self.account_metas(is_signer),
    ;

    /// Computes the handles of the static resources.
    fn to_account_infos(&self) -> (infos: Vec<ResourceHandle>)
        ensures
            infos@ == self.account_infos(),
    ;
}

/// A copy of `metas`.
fn copy_metas(metas: &Vec<ResourceMeta>) -> (copy: Vec<ResourceMeta>)
    ensures
        copy@ == metas@,
{
    let mut copy: Vec<ResourceMeta> = Vec::new();
    let mut i: usize = 0;
    while i < metas.len()
        invariant
            i <= metas@.len(),
            copy@ == metas@.take(i as int),
        decreases metas@.len() - i,
    {
        copy.push(metas[i]);
        assert(metas@.take(i as int).push(metas@[i as int]) =~= metas@.take(i + 1));
        i += 1;
    }
    assert(metas@.take(metas@.len() as int) =~= metas@);
    copy
}

/// Static resources given as lists: the metas for each signer flag that a
/// caller can set, and the handles. It stands for accounts of which only
/// these lists are known.
#[derive(Clone, Debug, PartialEq, Eq)]
pub struct StaticAccounts {
    /// The metas where the caller sets no signer flag.
    pub metas_unset: Vec<ResourceMeta>,
    /// The metas where the caller sets the signer flag to `false`.
    pub metas_unsigned: Vec<ResourceMeta>,
    /// The metas where the caller sets the signer flag to `true`.
    pub metas_signed: Vec<ResourceMeta>,
    /// The handles.
    pub infos: Vec<ResourceHandle>,
}

impl InterfaceAccounts for StaticAccounts {
    open spec fn account_metas(&self, is_signer: Option<bool>) -> Seq<ResourceMeta> {
        match is_signer {
            None => self.metas_unset@,
            Some(false) => self.metas_unsigned@,
            Some(true) => self.metas_signed@,
        }
    }

    open spec fn account_infos(&self) -> Seq<ResourceHandle> {
        self.infos@
    }

    fn to_account_metas(&self, is_signer: Option<bool>) -> (metas: Vec<ResourceMeta>) {
        match is_signer {
            None => copy_metas(&self.metas_unset),
            Some(false) => copy_metas(&self.metas_unsigned),
            Some(true) => copy_metas(&self.metas_signed),
        }
    }

    fn to_account_infos(&self) -> (infos: Vec<ResourceHandle>) {
        let mut infos: Vec<ResourceHandle> = Vec::new();
        let mut i: usize = 0;
        while i < self.infos.len()
            invariant
                i <= self.infos@.len(),
                infos@ == self.infos@.take(i as int),
            decreases self.infos@.len() - i,
        {
            infos.push(self.infos[i]);
            assert(self.infos@.take(i as int).push(self.infos@[i as int]) =~= self.infos@.take(
                i + 1,
            ));
            i += 1;
        }
        assert(self.infos@.take(self.infos@.len() as int) =~= self.infos@);
        infos
    }
}

impl ResourceHandle {
    /// The meta of one handle: writable as the handle is, and signer as
    /// `is_signer` says or, where it says nothing, as the handle is.
    pub open spec fn account_meta(&self, is_signer: Option<bool>) -> ResourceMeta {
        ResourceMeta {
            pubkey: self.key,
            is_signer: match is_signer {
                Some(flag) => flag,
                None => self.is_signer,
            },
            is_writable: self.is_writable,
        }
    }

    /// Computes the meta of this handle.
    pub fn to_account_meta(&self, is_signer: Option<bool>) -> (meta: ResourceMeta)
        ensures
            meta == self.account_meta(is_signer),
    {
        let signer = match is_signer {
            Some(flag) => flag,
            None => self.is_signer,
        };
        ResourceMeta { pubkey: self.key, is_signer: signer, is_writable: self.is_writable }
    }
}

/// What a caller hands to a two-phase call: the target, the static
/// resources, the candidates for what the target declares, and the derived
/// address that signs the real invocation, if one does.
pub struct CpiContext<T: InterfaceAccounts> {
    pub accounts: T,
    pub remaining_accounts: Vec<ResourceHandle>,
    pub program: ResourceHandle,
    pub signer_seeds: Option<SigningAuthority>,
}

impl<T: InterfaceAccounts> CpiContext<T> {
    /// A context without candidates and without a signing authority.
    pub fn new(program: ResourceHandle, accounts: T) -> (ctx: CpiContext<T>)
        ensures
            ctx.accounts == accounts,
            ctx.program == program,
            ctx.remaining_accounts@ == Seq::<ResourceHandle>::empty(),
            ctx.signer_seeds is None,
    {
        CpiContext { accounts, remaining_accounts: Vec::new(), program, signer_seeds: None }
    }

    /// A context without candidates, signed for by `signer_seeds`.
    pub fn new_with_signer(
        program: ResourceHandle,
        accounts: T,
        signer_seeds: SigningAuthority,
    ) -> (ctx: CpiContext<T>)
        ensures
            ctx.accounts == accounts,
            ctx.program == program,
            ctx.remaining_accounts@ == Seq::<ResourceHandle>::empty(),
            ctx.signer_seeds == Some(signer_seeds),
    {
        CpiContext {
            accounts,
            remaining_accounts: Vec::new(),
            program,
            signer_seeds: Some(signer_seeds),
        }
    }

    /// The same context, signed for by `signer_seeds`.
    pub fn with_signer(self, signer_seeds: SigningAuthority) -> (ctx: CpiContext<T>)
        ensures
            ctx.accounts == self.accounts,
            ctx.program == self.program,
            ctx.remaining_accounts == self.remaining_accounts,
            ctx.signer_seeds == Some(signer_seeds),
    {
        CpiContext {
            accounts: self.accounts,
            remaining_accounts: self.remaining_accounts,
            program: self.program,
            signer_seeds: Some(signer_seeds),
        }
    }

    /// The same context, with `ra` as its candidates.
    pub fn with_remaining_accounts(self, ra: Vec<ResourceHandle>) -> (ctx: CpiContext<T>)
        ensures
            ctx.accounts == self.accounts,
            ctx.program == self.program,
            ctx.remaining_accounts == ra,
            ctx.signer_seeds == self.signer_seeds,
    {
        CpiContext {
            accounts: self.accounts,
            remaining_accounts: ra,
            program: self.program,
            signer_seeds: self.signer_seeds,
        }
    }
}

/// References to the first `n` static handles.
pub open spec fn static_refs(n: nat) -> Seq<HandleRef> {
    Seq::new(n, |i: int| HandleRef::Static(i as usize))
}

/// References to the candidates at `slots`.
pub open spec fn candidate_refs(slots: Seq<usize>) -> Seq<HandleRef> {
    Seq::new(slots.len(), |k: int| HandleRef::Candidate(slots[k]))
}

/// The meta of a declared resource: the flags are the declared ones.
pub open spec fn descriptor_meta(descriptor: IAccountMeta) -> ResourceMeta {
    ResourceMeta {
        pubkey: descriptor.pubkey,
        is_signer: descriptor.signer,
        is_writable: descriptor.writable,
    }
}

/// The metas of the declared resources, in declared order.
pub open spec fn dynamic_metas(descriptors: Seq<IAccountMeta>) -> Seq<ResourceMeta> {
    Seq::new(descriptors.len(), |k: int| descriptor_meta(descriptors[k]))
}

/// The name under which the target's dry-run handler is registered.
pub open spec fn preflight_name(name: Seq<char>) -> Seq<char> {
    "preflight_"@ + name
}

/// The two phases hash different bytes: for every name, the text behind the
/// selector of the dry run is ten characters longer than the text behind the
/// selector of the real invocation, so the hashed bytes differ. Whether the
/// two selectors differ is then a matter of the digest alone.
pub proof fn lemma_phases_have_distinct_preimages(name: Seq<char>)
    ensures
        selector_text("global"@, preflight_name(name)).len() == selector_text(
            "global"@,
            name,
        ).len() + 10,
        selector_preimage("global"@, preflight_name(name)) != selector_preimage("global"@, name),
{
    reveal_strlit("preflight_");
    lemma_distinct_texts_have_distinct_preimages(
        "global"@,
        preflight_name(name),
        "global"@,
        name,
    );
}

/// The dry run of `name`: static resources only, no caller-set signer, no
/// signing authority.
pub open spec fn preflight_invocation<T: InterfaceAccounts>(
    name: Seq<char>,
    ctx: &CpiContext<T>,
    args: Seq<u8>,
) -> InvocationView {
    InvocationView {
        program_id: ctx.program.key,
        accounts: ctx.accounts.account_metas(Some(false)),
        data: selector_spec("global"@, preflight_name(name)) + args,
        handles: static_refs(ctx.accounts.account_infos().len()),
        signer_seeds: None,
    }
}

/// The real invocation of `name`, given what the target declared: the static
/// resources followed by the declared ones, each declared one tagged with
/// its declared flags and bound to the candidate that the pool holds for it.
pub open spec fn execute_invocation<T: InterfaceAccounts>(
    name: Seq<char>,
    ctx: &CpiContext<T>,
    args: Seq<u8>,
    descriptors: Seq<IAccountMeta>,
) -> Result<InvocationView, CallError> {
    match resolve_spec(descriptors, ctx.remaining_accounts@) {
        Ok(slots) => Ok(
            InvocationView {
                program_id: ctx.program.key,
                accounts: ctx.accounts.account_metas(None) + dynamic_metas(descriptors),
                data: selector_spec("global"@, name) + args,
                handles: static_refs(ctx.accounts.account_infos().len()) + candidate_refs(slots),
                signer_seeds: authority_view(ctx.signer_seeds),
            },
        ),
        Err(e) => Err(e),
    }
}

/// A declared resource is announced with its declared flags: in the real
/// invocation, the meta of the resource declared at position `k` stands `k`
/// places after the static metas and carries the declared identifier, signer
/// flag and writable flag, whatever the flags of the candidate bound to it;
/// the handle at the matching place is the candidate that the pool holds for
/// the declared identifier.
pub proof fn lemma_declared_flags_stand<T: InterfaceAccounts>(
    name: Seq<char>,
    ctx: &CpiContext<T>,
    args: Seq<u8>,
    descriptors: Seq<IAccountMeta>,
    k: int,
)
    requires
        execute_invocation(name, ctx, args, descriptors) is Ok,
        0 <= k < descriptors.len(),
    ensures
        ({
            let invocation = execute_invocation(name, ctx, args, descriptors).unwrap();
            let metas = ctx.accounts.account_metas(None).len();
            let infos = ctx.accounts.account_infos().len();
            &&& invocation.accounts.len() == metas + descriptors.len()
            &&& invocation.accounts[metas + k].pubkey == descriptors[k].pubkey
            &&& invocation.accounts[metas + k].is_signer == descriptors[k].signer
            &&& invocation.accounts[metas + k].is_writable == descriptors[k].writable
            &&& invocation.handles.len() == infos + descriptors.len()
            &&& invocation.handles[infos + k] matches HandleRef::Candidate(slot) && holds_at(
                ctx.remaining_accounts@,
                descriptors[k].pubkey,
                slot as int,
            )
        }),
{
    let pool = ctx.remaining_accounts@;
    let slots = resolve_spec(descriptors, pool).unwrap();
    assert(all_registered(descriptors, pool));
    assert(slot_of(pool, descriptors[k].pubkey) is Some);
    lemma_slot_of(pool, descriptors[k].pubkey);
    assert(pool.len() == ctx.remaining_accounts.len());
    assert(slots[k] as int == slot_of(pool, descriptors[k].pubkey).unwrap());
}

/// The flags of the candidates do not reach the invocation: two contexts
/// that differ only in the owners and the flags of their candidates give the
/// same real invocation, or fail alike.
pub proof fn lemma_candidate_flags_are_ignored<T: InterfaceAccounts>(
    name: Seq<char>,
    ctx: &CpiContext<T>,
    other: &CpiContext<T>,
    args: Seq<u8>,
    descriptors: Seq<IAccountMeta>,
)
    requires
        ctx.accounts == other.accounts,
        ctx.program.key == other.program.key,
        authority_view(ctx.signer_seeds) == authority_view(other.signer_seeds),
        ctx.remaining_accounts@.len() == other.remaining_accounts@.len(),
        forall|slot: int|
            0 <= slot < ctx.remaining_accounts@.len() ==> ctx.remaining_accounts@[slot].key
                == other.remaining_accounts@[slot].key,
    ensures
        execute_invocation(name, ctx, args, descriptors) == execute_invocation(
            name,
            other,
            args,
            descriptors,
        ),
{
    lemma_resolution_goes_by_identifier(
        descriptors,
        ctx.remaining_accounts@,
        other.remaining_accounts@,
    );
}

/// The static resources come first and unchanged: the metas of the real
/// invocation start with the static metas, and the handles with the static
/// handles.
pub proof fn lemma_static_resources_lead<T: InterfaceAccounts>(
    name: Seq<char>,
    ctx: &CpiContext<T>,
    args: Seq<u8>,
    descriptors: Seq<IAccountMeta>,
)
    requires
        execute_invocation(name, ctx, args, descriptors) is Ok,
    ensures
        ({
            let invocation = execute_invocation(name, ctx, args, descriptors).unwrap();
            let metas = ctx.accounts.account_metas(None);
            let infos = ctx.accounts.account_infos().len();
            &&& invocation.accounts.take(metas.len() as int) == metas
            &&& invocation.handles.take(infos as int) == static_refs(infos)
            &&& descriptors.len() == 0 ==> invocation.accounts == metas
        }),
{
    let invocation = execute_invocation(name, ctx, args, descriptors).unwrap();
    let metas = ctx.accounts.account_metas(None);
    let infos = ctx.accounts.account_infos().len();
    assert(invocation.accounts.take(metas.len() as int) =~= metas);
    assert(invocation.handles.take(infos as int) =~= static_refs(infos));
    if descriptors.len() == 0 {
        assert(invocation.accounts =~= metas);
    }
}

/// The buffer of a call: the selector of `name` among the global handlers,
/// then the arguments.
fn call_data(name: &str, args: &[u8]) -> (data: Vec<u8>)
    ensures
        data@ == selector_spec("global"@, name@) + args@,
{
    let selector = selector("global", name);
    let mut data: Vec<u8> = Vec::new();
    data.extend_from_slice(&selector);
    data.extend_from_slice(args);
    assert(data@ =~= selector@ + args@);
    data
}

/// References to the static handles at positions `0..n`.
fn static_handle_refs(n: usize) -> (refs: Vec<HandleRef>)
    ensures
        refs@ == static_refs(n as nat),
{
    let mut refs: Vec<HandleRef> = Vec::new();
    let mut i: usize = 0;
    while i < n
        invariant
            i <= n,
            refs@.len() == i,
            forall|j: int| 0 <= j < i ==> refs@[j] == HandleRef::Static(j as usize),
        decreases n - i,
    {
        refs.push(HandleRef::Static(i));
        i += 1;
    }
    assert(refs@ =~= static_refs(n as nat));
    refs
}

/// Builds the dry run that asks the target which resources `function_name`
/// needs beyond the static ones.
pub fn call_preflight_interface_function<T: InterfaceAccounts>(
    function_name: &str,
    ctx: &CpiContext<T>,
    args: &[u8],
) -> (invocation: Invocation)
    ensures
        invocation@ == preflight_invocation(function_name@, ctx, args@),
{
    let mut name = String::from_str("preflight_");
    name.append(function_name);
    let data = call_data(name.as_str(), args);
    let accounts = ctx.accounts.to_account_metas(Some(false));
    let infos = ctx.accounts.to_account_infos();
    let handles = static_handle_refs(infos.len());
    Invocation { program_id: ctx.program.key, accounts, data, handles, signer_seeds: None }
}

/// Builds the real invocation of `function_name` from what the target
/// declared. Fails with `NotFound` where the candidates lack a declared
/// resource, and then builds nothing.
pub fn call_interface_function<T: InterfaceAccounts>(
    function_name: &str,
    ctx: &CpiContext<T>,
    args: &[u8],
    additional_interface_accounts: &PreflightPayload,
) -> (result: Result<Invocation, CallError>)
    ensures
        match result {
            Ok(invocation) => Ok::<InvocationView, CallError>(invocation@) == execute_invocation(
                function_name@,
                ctx,
                args@,
                additional_interface_accounts@,
            ),
            Err(e) => Err::<InvocationView, CallError>(e) == execute_invocation(
                function_name@,
                ctx,
                args@,
                additional_interface_accounts@,
            ),
        },
{
    let data = call_data(function_name, args);
    let mut accounts = ctx.accounts.to_account_metas(None);
    let ghost static_metas = accounts@;
    let declared = &additional_interface_accounts.accounts;
    let mut k: usize = 0;
    while k < declared.len()
        invariant
            k <= declared@.len(),
            accounts@.len() == static_metas.len() + k,
            forall|j: int| 0 <= j < static_metas.len() ==> accounts@[j] == static_metas[j],
            forall|j: int|
                0 <= j < k ==> accounts@[static_metas.len() + j] == descriptor_meta(declared@[j]),
        decreases declared@.len() - k,
    {
        let descriptor = declared[k];
        accounts.push(
            ResourceMeta {
                pubkey: descriptor.pubkey,
                is_signer: descriptor.signer,
                is_writable: descriptor.writable,
            },
        );
        k += 1;
    }
    assert(accounts@ =~= static_metas + dynamic_metas(declared@));
    let infos = ctx.accounts.to_account_infos();
    let mut handles = static_handle_refs(infos.len());
    let slots = match additional_interface_accounts.match_accounts(
        ctx.remaining_accounts.as_slice(),
    ) {
        Ok(slots) => slots,
        Err(e) => {
            return Err(e);
        },
    };
    let ghost static_handles = handles@;
    let mut s: usize = 0;
    while s < slots.len()
        invariant
            s <= slots@.len(),
            handles@.len() == static_handles.len() + s,
            forall|j: int| 0 <= j < static_handles.len() ==> handles@[j] == static_handles[j],
            forall|j: int|
                0 <= j < s ==> handles@[static_handles.len() + j] == HandleRef::Candidate(
                    slots@[j],
                ),
        decreases slots@.len() - s,
    {
        handles.push(HandleRef::Candidate(slots[s]));
        s += 1;
    }
    assert(handles@ =~= static_handles + candidate_refs(slots@));
    let signer_seeds = match &ctx.signer_seeds {
        Some(authority) => Some(authority.duplicate()),
        None => None,
    };
    Ok(Invocation { program_id: ctx.program.key, accounts, data, handles, signer_seeds })
}

} // verus!
