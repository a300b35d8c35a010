//! The two-phase call as a state machine. The host does the nested calls and
//! reads the side channel; `call` decides, from the state and from what the
//! host reports, what the host does next:
//!
//! `Idle → Preflighting → AwaitingPayload → Resolving → Executing → Done`,
//! with `Failed` reached from every state on the first failure. `Done` and
//! `Failed` are final.

use vstd::prelude::*;
use crate::error::CallError;
use crate::identifier::ResourceIdentifier;
use crate::instructions::{ITransfer, ITransferPda};
use crate::invocation::{
    call_interface_function,
    call_preflight_interface_function,
    execute_invocation,
    preflight_invocation,
    CpiContext,
    InterfaceAccounts,
    Invocation,
    InvocationView,
};
use crate::matcher::{lemma_missing_identifier_fails, registered};
use crate::payload::{
    decode_spec,
    encode_spec,
    lemma_decode_encode,
    well_encoded,
    well_formed,
    IAccountMeta,
    PreflightPayload,
};

verus! {

/// What the side channel holds after a nested call: who filled it, and with
/// what.
#[derive(Clone, Debug, PartialEq, Eq)]
pub struct ReturnData {
    pub origin: ResourceIdentifier,
    pub bytes: Vec<u8>,
}

/// What the side channel holds, with the bytes as a sequence.
pub struct ReturnDataView {
    pub origin: ResourceIdentifier,
    pub bytes: Seq<u8>,
}

impl View for ReturnData {
    type V = ReturnDataView;

    open spec fn view(&self) -> ReturnDataView {
        ReturnDataView { origin: self.origin, bytes: self.bytes@ }
    }
}

impl ReturnData {
    /// What the target `origin` leaves in the side channel to declare
    /// `declaration`. Fails only where the wire format cannot carry the
    /// declaration.
    pub fn declaring(origin: ResourceIdentifier, declaration: &PreflightPayload) -> (result: Result<
        ReturnData,
        CallError,
    >)
        ensures
            result is Ok <==> declaration.well_formed(),
            result matches Ok(data) ==> data.origin == origin && data.bytes@ == encode_spec(
                declaration@,
            ),
            result matches Err(e) ==> e == CallError::FormatError,
    {
        match declaration.encode() {
            Ok(bytes) => Ok(ReturnData { origin, bytes }),
            Err(e) => Err(e),
        }
    }
}

/// The view of what the side channel holds, if it holds anything.
pub open spec fn slot_view(slot: Option<ReturnData>) -> Option<ReturnDataView> {
    match slot {
        Some(data) => Some(data@),
        None => None,
    }
}

/// What the host reports to the state machine.
#[derive(Debug, PartialEq, Eq)]
pub enum HostEvent {
    /// The caller asks for the call.
    Start,
    /// The nested call that was asked for has returned: with success, or with
    /// the host's error code.
    Dispatched(Result<(), u64>),
    /// The side channel was read and held this.
    SideChannel(Option<ReturnData>),
    /// The host had nothing to do and hands control back.
    Resume,
}

/// A report of the host, with bytes as sequences.
pub enum HostEventView {
    Start,
    Dispatched(Result<(), u64>),
    SideChannel(Option<ReturnDataView>),
    Resume,
}

impl View for HostEvent {
    type V = HostEventView;

    open spec fn view(&self) -> HostEventView {
        match self {
            HostEvent::Start => HostEventView::Start,
            HostEvent::Dispatched(outcome) => HostEventView::Dispatched(*outcome),
            HostEvent::SideChannel(slot) => HostEventView::SideChannel(slot_view(*slot)),
            HostEvent::Resume => HostEventView::Resume,
        }
    }
}

/// What the state machine asks of the host.
#[derive(Debug, PartialEq, Eq)]
pub enum HostAction {
    /// Make this nested call, and report how it returned.
    Dispatch(Invocation),
    /// Read the side channel, and report what it holds.
    ReadSideChannel,
    /// Nothing; hand control back.
    Continue,
    /// The call is over, with this result.
    Finish(Result<(), CallError>),
}

/// A request to the host, with the invocation as its view.
pub enum HostActionView {
    Dispatch(InvocationView),
    ReadSideChannel,
    Continue,
    Finish(Result<(), CallError>),
}

impl View for HostAction {
    type V = HostActionView;

    open spec fn view(&self) -> HostActionView {
        match self {
            HostAction::Dispatch(invocation) => HostActionView::Dispatch(invocation@),
            HostAction::ReadSideChannel => HostActionView::ReadSideChannel,
            HostAction::Continue => HostActionView::Continue,
            HostAction::Finish(result) => HostActionView::Finish(*result),
        }
    }
}

/// Where a two-phase call stands.
#[derive(Clone, Debug, PartialEq, Eq)]
pub enum CallState {
    /// Nothing has happened yet.
    Idle,
    /// The dry run is with the host.
    Preflighting,
    /// The dry run returned; the side channel is being read.
    AwaitingPayload,
    /// The target's declaration is at hand and not yet resolved.
    Resolving(PreflightPayload),
    /// The real invocation is with the host.
    Executing,
    /// The real invocation returned with success.
    Done,
    /// The call failed, for this reason.
    Failed(CallError),
}

/// A state of the call, with the declaration as a sequence.
pub enum CallStateView {
    Idle,
    Preflighting,
    AwaitingPayload,
    Resolving(Seq<IAccountMeta>),
    Executing,
    Done,
    Failed(CallError),
}

impl View for CallState {
    type V = CallStateView;

    open spec fn view(&self) -> CallStateView {
        match self {
            CallState::Idle => CallStateView::Idle,
            CallState::Preflighting => CallStateView::Preflighting,
            CallState::AwaitingPayload => CallStateView::AwaitingPayload,
            CallState::Resolving(payload) => CallStateView::Resolving(payload@),
            CallState::Executing => CallStateView::Executing,
            CallState::Done => CallStateView::Done,
            CallState::Failed(e) => CallStateView::Failed(*e),
        }
    }
}

/// What the side channel yields for a call into `program_key`. The origin
/// is tested before anything is asked of the bytes: a channel that anyone but
/// the target filled is an `IdentityMismatch`, whatever it holds, even
/// nothing. Of the target's own bytes, none at all are a `ProtocolViolation`,
/// bytes that are no declaration a `FormatError`, and well-encoded bytes give
/// the declaration they carry. A channel that nobody filled is a
/// `ProtocolViolation`.
pub open spec fn fetch_spec(program_key: ResourceIdentifier, slot: Option<ReturnDataView>) -> Result<
    Seq<IAccountMeta>,
    CallError,
> {
    match slot {
        None => Err(CallError::ProtocolViolation),
        Some(data) => if data.origin != program_key {
            Err(CallError::IdentityMismatch)
        } else if data.bytes.len() == 0 {
            Err(CallError::ProtocolViolation)
        } else if !well_encoded(data.bytes) {
            Err(CallError::FormatError)
        } else {
            Ok(decode_spec(data.bytes))
        },
    }
}

/// Takes the target's declaration from what the side channel held after the
/// dry run. The origin is tested first: a channel filled by anyone but
/// `program_key` is an `IdentityMismatch`, whatever it holds, even nothing.
/// A channel that nobody filled, or that the target filled with no bytes, is
/// a `ProtocolViolation`; bytes of the target that are no declaration are a
/// `FormatError`.
pub fn get_interface_accounts(program_key: &ResourceIdentifier, slot: &Option<ReturnData>) -> (result:
    Result<PreflightPayload, CallError>)
    ensures
        match result {
            Ok(payload) => Ok::<Seq<IAccountMeta>, CallError>(payload@) == fetch_spec(
                *program_key,
                slot_view(*slot),
            ),
            Err(e) => Err::<Seq<IAccountMeta>, CallError>(e) == fetch_spec(
                *program_key,
                slot_view(*slot),
            ),
        },
{
    match slot {
        None => Err(CallError::ProtocolViolation),
        Some(data) => {
            if data.origin != *program_key {
                Err(CallError::IdentityMismatch)
            } else if data.bytes.len() == 0 {
                Err(CallError::ProtocolViolation)
            } else {
                PreflightPayload::decode(data.bytes.as_slice())
            }
        },
    }
}

/// What a target declares is what its caller fetches: from a side channel
/// that the target filled with the encoding of a declaration, the caller
/// takes that declaration.
pub proof fn lemma_declared_is_fetched(target: ResourceIdentifier, descriptors: Seq<IAccountMeta>)
    requires
        well_formed(descriptors),
    ensures
        fetch_spec(
            target,
            Some(ReturnDataView { origin: target, bytes: encode_spec(descriptors) }),
        ) == Ok::<Seq<IAccountMeta>, CallError>(descriptors),
{
    lemma_decode_encode(descriptors);
}

/// The step that ends the call with `e`.
pub open spec fn fail(e: CallError) -> (CallStateView, HostActionView) {
    (CallStateView::Failed(e), HostActionView::Finish(Err(e)))
}

/// One step of the call of `name`: the next state, and what the host does
/// next. A report that the state does not wait for is a `ProtocolViolation`.
pub open spec fn call_spec<T: InterfaceAccounts>(
    name: Seq<char>,
    ctx: &CpiContext<T>,
    args: Seq<u8>,
    state: CallStateView,
    event: HostEventView,
) -> (CallStateView, HostActionView) {
    match state {
        CallStateView::Idle => match event {
            HostEventView::Start => (
                CallStateView::Preflighting,
                HostActionView::Dispatch(preflight_invocation(name, ctx, args)),
            ),
            _ => fail(CallError::ProtocolViolation),
        },
        CallStateView::Preflighting => match event {
            HostEventView::Dispatched(Ok(_)) => (
                CallStateView::AwaitingPayload,
                HostActionView::ReadSideChannel,
            ),
            _ => fail(CallError::ProtocolViolation),
        },
        CallStateView::AwaitingPayload => match event {
            HostEventView::SideChannel(slot) => match fetch_spec(ctx.program.key, slot) {
                Ok(descriptors) => (
                    CallStateView::Resolving(descriptors),
                    HostActionView::Continue,
                ),
                Err(e) => fail(e),
            },
            _ => fail(CallError::ProtocolViolation),
        },
        CallStateView::Resolving(descriptors) => match event {
            HostEventView::Resume => match execute_invocation(name, ctx, args, descriptors) {
                Ok(invocation) => (CallStateView::Executing, HostActionView::Dispatch(invocation)),
                Err(e) => fail(e),
            },
            _ => fail(CallError::ProtocolViolation),
        },
        CallStateView::Executing => match event {
            HostEventView::Dispatched(Ok(_)) => (CallStateView::Done, HostActionView::Finish(Ok(()))),
            HostEventView::Dispatched(Err(code)) => fail(CallError::HostDispatchError(code)),
            _ => fail(CallError::ProtocolViolation),
        },
        CallStateView::Done => (CallStateView::Done, HostActionView::Finish(Ok(()))),
        CallStateView::Failed(e) => fail(e),
    }
}

/// How a call ends with a host that answers in turn: `preflight` is how the
/// dry run returned, `slot` what the side channel held after it, `execute`
/// how the real invocation returned. The first failure decides.
pub open spec fn call_outcome<T: InterfaceAccounts>(
    name: Seq<char>,
    ctx: &CpiContext<T>,
    args: Seq<u8>,
    preflight: Result<(), u64>,
    slot: Option<ReturnDataView>,
    execute: Result<(), u64>,
) -> Result<(), CallError> {
    if preflight is Err {
        Err(CallError::ProtocolViolation)
    } else {
        match fetch_spec(ctx.program.key, slot) {
            Err(e) => Err(e),
            Ok(descriptors) => match execute_invocation(name, ctx, args, descriptors) {
                Err(e) => Err(e),
                Ok(_) => match execute {
                    Err(code) => Err(CallError::HostDispatchError(code)),
                    Ok(_) => Ok(()),
                },
            },
        }
    }
}

/// A call driven from `Idle` by a host that answers in turn ends as
/// `call_outcome` says. The dry run is always asked for, and first. The real
/// invocation is asked for exactly where the dry run returned with success,
/// the side channel held a declaration of the target, and the pool holds
/// every declared resource; it is then the invocation that
/// `execute_invocation` builds from that declaration.
pub proof fn lemma_call_outcome<T: InterfaceAccounts>(
    name: Seq<char>,
    ctx: &CpiContext<T>,
    args: Seq<u8>,
    preflight: Result<(), u64>,
    slot: Option<ReturnDataView>,
    execute: Result<(), u64>,
)
    ensures
        ({
            let first = call_spec(name, ctx, args, CallStateView::Idle, HostEventView::Start);
            let second = call_spec(name, ctx, args, first.0, HostEventView::Dispatched(preflight));
            let third = call_spec(name, ctx, args, second.0, HostEventView::SideChannel(slot));
            let fourth = call_spec(name, ctx, args, third.0, HostEventView::Resume);
            let fifth = call_spec(name, ctx, args, fourth.0, HostEventView::Dispatched(execute));
            let outcome = call_outcome(name, ctx, args, preflight, slot, execute);
            let resolved = preflight is Ok && fetch_spec(ctx.program.key, slot) is Ok
                && execute_invocation(
                name,
                ctx,
                args,
                fetch_spec(ctx.program.key, slot).unwrap(),
            ) is Ok;
            &&& first.1 == HostActionView::Dispatch(preflight_invocation(name, ctx, args))
            &&& !(second.1 is Dispatch) && !(third.1 is Dispatch) && !(fifth.1 is Dispatch)
            &&& fourth.1 is Dispatch <==> resolved
            &&& resolved ==> fourth.1 == HostActionView::Dispatch(
                execute_invocation(
                    name,
                    ctx,
                    args,
                    fetch_spec(ctx.program.key, slot).unwrap(),
                ).unwrap(),
            )
            &&& fifth.1 == HostActionView::Finish(outcome)
            &&& fifth.0 == match outcome {
                Ok(_) => CallStateView::Done,
                Err(e) => CallStateView::Failed(e),
            }
        }),
{
}

/// `Done` and `Failed` are final: whatever the host reports, the state stays
/// and the call is over with the same result.
pub proof fn lemma_final_states_stay<T: InterfaceAccounts>(
    name: Seq<char>,
    ctx: &CpiContext<T>,
    args: Seq<u8>,
    state: CallStateView,
    event: HostEventView,
)
    requires
        state is Done || state is Failed,
    ensures
        call_spec(name, ctx, args, state, event).0 == state,
        state is Done ==> call_spec(name, ctx, args, state, event).1 == HostActionView::Finish(
            Ok(()),
        ),
        state matches CallStateView::Failed(e) ==> call_spec(name, ctx, args, state, event).1
            == HostActionView::Finish(Err(e)),
{
}

/// A failure is terminal and dispatches nothing: a step that fails ends the
/// call with the reason of the failure. The host is asked for a nested call
/// in two steps only, the first out of `Idle` with the dry run, the second
/// out of `Resolving` with the real invocation; and the call ends with
/// success only out of `Executing` or `Done`.
pub proof fn lemma_steps<T: InterfaceAccounts>(
    name: Seq<char>,
    ctx: &CpiContext<T>,
    args: Seq<u8>,
    state: CallStateView,
    event: HostEventView,
)
    ensures
        ({
            let (next, action) = call_spec(name, ctx, args, state, event);
            &&& next matches CallStateView::Failed(e) ==> action == HostActionView::Finish(Err(e))
            &&& action matches HostActionView::Dispatch(invocation) ==> {
                ||| state is Idle && next is Preflighting && invocation == preflight_invocation(
                    name,
                    ctx,
                    args,
                )
                ||| state matches CallStateView::Resolving(descriptors) && next is Executing
                    && execute_invocation(name, ctx, args, descriptors) == Ok::<
                    InvocationView,
                    CallError,
                >(invocation)
            }
            &&& action == HostActionView::Finish(Ok(())) ==> next is Done && (state is Executing
                || state is Done)
            &&& next is Resolving ==> state is AwaitingPayload
            &&& next is Executing ==> state is Resolving
        }),
{
}

/// A declared resource that the pool lacks ends the call before the real
/// invocation: out of `Resolving`, the step fails with `NotFound` and asks
/// the host for nothing but to finish.
pub proof fn lemma_unresolved_never_executes<T: InterfaceAccounts>(
    name: Seq<char>,
    ctx: &CpiContext<T>,
    args: Seq<u8>,
    descriptors: Seq<IAccountMeta>,
    missing: int,
)
    requires
        0 <= missing < descriptors.len(),
        !registered(ctx.remaining_accounts@, descriptors[missing].pubkey),
    ensures
        ({
            let (next, action) = call_spec(
                name,
                ctx,
                args,
                CallStateView::Resolving(descriptors),
                HostEventView::Resume,
            );
            &&& next matches CallStateView::Failed(CallError::NotFound(id)) && !registered(
                ctx.remaining_accounts@,
                id,
            )
            &&& action == HostActionView::Finish(Err(next->Failed_0))
        }),
{
    lemma_missing_identifier_fails(descriptors, ctx.remaining_accounts@, missing);
}

/// The origin decides before the bytes do: from a side channel that anyone
/// but the target filled, nothing is fetched but `IdentityMismatch`,
/// whatever the bytes are: none, malformed ones, or a well-encoded
/// declaration.
pub proof fn lemma_foreign_origin_is_a_mismatch(
    program_key: ResourceIdentifier,
    data: ReturnDataView,
)
    requires
        data.origin != program_key,
    ensures
        fetch_spec(program_key, Some(data)) == Err::<Seq<IAccountMeta>, CallError>(
            CallError::IdentityMismatch,
        ),
{
}

/// A side channel filled by anyone but the target ends the call before any
/// resolution: out of `AwaitingPayload`, the step fails with
/// `IdentityMismatch` and asks the host for nothing but to finish, whatever
/// the bytes are and whatever the pool holds. A whole call whose dry run
/// returned with success then ends with `IdentityMismatch`, and the dry run
/// is the only nested call that the host was asked for.
pub proof fn lemma_foreign_origin_never_resolves<T: InterfaceAccounts>(
    name: Seq<char>,
    ctx: &CpiContext<T>,
    args: Seq<u8>,
    data: ReturnDataView,
    execute: Result<(), u64>,
)
    requires
        data.origin != ctx.program.key,
    ensures
        call_spec(
            name,
            ctx,
            args,
            CallStateView::AwaitingPayload,
            HostEventView::SideChannel(Some(data)),
        ) == fail(CallError::IdentityMismatch),
        call_outcome(name, ctx, args, Ok(()), Some(data), execute) == Err::<(), CallError>(
            CallError::IdentityMismatch,
        ),
        ({
            let first = call_spec(name, ctx, args, CallStateView::Idle, HostEventView::Start);
            let second = call_spec(name, ctx, args, first.0, HostEventView::Dispatched(Ok(())));
            let third = call_spec(name, ctx, args, second.0, HostEventView::SideChannel(Some(data)));
            let fourth = call_spec(name, ctx, args, third.0, HostEventView::Resume);
            let fifth = call_spec(name, ctx, args, fourth.0, HostEventView::Dispatched(execute));
            &&& first.1 == HostActionView::Dispatch(preflight_invocation(name, ctx, args))
            &&& second.1 == HostActionView::ReadSideChannel
            &&& third == fail(CallError::IdentityMismatch)
            &&& fourth == fail(CallError::IdentityMismatch)
            &&& fifth == fail(CallError::IdentityMismatch)
        }),
{
}

/// The step that ends the call with `e`.
fn failed(e: CallError) -> (step: (CallState, HostAction))
    ensures
        (step.0@, step.1@) == fail(e),
{
    (CallState::Failed(e), HostAction::Finish(Err(e)))
}

/// Takes one step of the call of `ix_name` on the target of `ctx`. The
/// caller starts with `CallState::Idle` and `HostEvent::Start`, does what the
/// returned action asks, and comes back with the returned state and the
/// host's report, until the action is `Finish`.
pub fn call<T: InterfaceAccounts>(
    ix_name: &str,
    ctx: &CpiContext<T>,
    args: &[u8],
    state: CallState,
    event: HostEvent,
) -> (step: (CallState, HostAction))
    ensures
        (step.0@, step.1@) == call_spec(ix_name@, ctx, args@, state@, event@),
{
    match state {
        CallState::Idle => match event {
            HostEvent::Start => (
                CallState::Preflighting,
                HostAction::Dispatch(call_preflight_interface_function(ix_name, ctx, args)),
            ),
            _ => failed(CallError::ProtocolViolation),
        },
        CallState::Preflighting => match event {
            HostEvent::Dispatched(Ok(_)) => (CallState::AwaitingPayload, HostAction::ReadSideChannel),
            _ => failed(CallError::ProtocolViolation),
        },
        CallState::AwaitingPayload => match event {
            HostEvent::SideChannel(slot) => match get_interface_accounts(&ctx.program.key, &slot) {
                Ok(payload) => (CallState::Resolving(payload), HostAction::Continue),
                Err(e) => failed(e),
            },
            _ => failed(CallError::ProtocolViolation),
        },
        CallState::Resolving(payload) => match event {
            HostEvent::Resume => match call_interface_function(ix_name, ctx, args, &payload) {
                Ok(invocation) => (CallState::Executing, HostAction::Dispatch(invocation)),
                Err(e) => failed(e),
            },
            _ => failed(CallError::ProtocolViolation),
        },
        CallState::Executing => match event {
            HostEvent::Dispatched(Ok(_)) => (CallState::Done, HostAction::Finish(Ok(()))),
            HostEvent::Dispatched(Err(code)) => failed(CallError::HostDispatchError(code)),
            _ => failed(CallError::ProtocolViolation),
        },
        CallState::Done => (CallState::Done, HostAction::Finish(Ok(()))),
        CallState::Failed(e) => failed(e),
    }
}

/// One step of a `transfer` whose authority signs for itself.
pub fn transfer(ctx: &CpiContext<ITransfer>, state: CallState, event: HostEvent) -> (step: (
    CallState,
    HostAction,
))
    ensures
        (step.0@, step.1@) == call_spec("transfer"@, ctx, Seq::<u8>::empty(), state@, event@),
{
    let args: Vec<u8> = Vec::new();
    call("transfer", ctx, args.as_slice(), state, event)
}

/// One step of a `transfer` whose authority is a derived address.
pub fn transfer_pda(ctx: &CpiContext<ITransferPda>, state: CallState, event: HostEvent) -> (step: (
    CallState,
    HostAction,
))
    ensures
        (step.0@, step.1@) == call_spec("transfer"@, ctx, Seq::<u8>::empty(), state@, event@),
{
    let args: Vec<u8> = Vec::new();
    call("transfer", ctx, args.as_slice(), state, event)
}

} // verus!
