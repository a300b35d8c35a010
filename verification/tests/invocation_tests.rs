use additional_accounts_request::error::CallError;
use additional_accounts_request::identifier::ResourceIdentifier;
use additional_accounts_request::instructions::{ITransfer, ITransferPda, SignerOverride};
use additional_accounts_request::invocation::{
    call_interface_function, call_preflight_interface_function, CpiContext, HandleRef,
    InterfaceAccounts, ResourceMeta, SigningAuthority, StaticAccounts,
};
use additional_accounts_request::matcher::ResourceHandle;
use additional_accounts_request::payload::{IAccountMeta, PreflightPayload};
use additional_accounts_request::selector::selector;

fn builder_id(fill: u8) -> ResourceIdentifier {
    ResourceIdentifier::new([fill; 32])
}

fn live(fill: u8, is_signer: bool, is_writable: bool) -> ResourceHandle {
    ResourceHandle {
        key: builder_id(fill),
        owner: builder_id(0xee),
        is_signer,
        is_writable,
    }
}

fn meta(fill: u8, is_signer: bool, is_writable: bool) -> ResourceMeta {
    ResourceMeta {
        pubkey: builder_id(fill),
        is_signer,
        is_writable,
    }
}

fn asks(fill: u8, signer: bool, writable: bool) -> IAccountMeta {
    IAccountMeta {
        pubkey: builder_id(fill),
        signer,
        writable,
    }
}

fn plain_transfer() -> ITransfer {
    ITransfer {
        owner: live(1, false, false),
        destination: live(2, false, true),
        authority: live(3, true, false),
        asset: live(4, false, true),
    }
}

fn derived_transfer(signer_override: SignerOverride) -> ITransferPda {
    ITransferPda {
        owner: live(1, true, false),
        destination: live(2, false, true),
        authority: live(3, false, false),
        asset: live(4, false, true),
        signer_override,
    }
}

fn target() -> ResourceHandle {
    live(0x50, false, false)
}

fn static_handles() -> Vec<HandleRef> {
    vec![
        HandleRef::Static(0),
        HandleRef::Static(1),
        HandleRef::Static(2),
        HandleRef::Static(3),
    ]
}

#[test]
fn handle_meta_takes_the_flag_that_the_caller_sets() {
    let handle = live(7, true, true);
    assert_eq!(handle.to_account_meta(None), meta(7, true, true));
    assert_eq!(handle.to_account_meta(Some(false)), meta(7, false, true));
    let handle = live(7, false, false);
    assert_eq!(handle.to_account_meta(None), meta(7, false, false));
    assert_eq!(handle.to_account_meta(Some(true)), meta(7, true, false));
}

#[test]
fn transfer_metas_follow_the_handles() {
    let accounts = plain_transfer();
    let expected = vec![
        meta(1, false, false),
        meta(2, false, true),
        meta(3, true, false),
        meta(4, false, true),
    ];
    assert_eq!(accounts.to_account_metas(None), expected);
    assert_eq!(accounts.to_account_metas(Some(false)), expected);
    assert_eq!(accounts.to_account_metas(Some(true)), expected);
}

#[test]
fn transfer_handles_are_owner_destination_authority_asset() {
    let accounts = plain_transfer();
    assert_eq!(
        accounts.to_account_infos(),
        vec![
            accounts.owner,
            accounts.destination,
            accounts.authority,
            accounts.asset
        ]
    );
    let derived = derived_transfer(SignerOverride::IfUnset);
    assert_eq!(
        derived.to_account_infos(),
        vec![
            derived.owner,
            derived.destination,
            derived.authority,
            derived.asset
        ]
    );
}

#[test]
fn derived_authority_signs_where_the_caller_sets_nothing() {
    let accounts = derived_transfer(SignerOverride::IfUnset);
    assert_eq!(
        accounts.to_account_metas(None),
        vec![
            meta(1, true, false),
            meta(2, false, true),
            meta(3, true, false),
            meta(4, false, true),
        ]
    );
}

#[test]
fn derived_authority_follows_the_flag_that_the_caller_sets() {
    let accounts = derived_transfer(SignerOverride::IfUnset);
    assert_eq!(
        accounts.to_account_metas(Some(false)),
        vec![
            meta(1, false, false),
            meta(2, false, true),
            meta(3, false, false),
            meta(4, false, true),
        ]
    );
    assert_eq!(
        accounts.to_account_metas(Some(true)),
        vec![
            meta(1, true, false),
            meta(2, true, true),
            meta(3, true, false),
            meta(4, true, true),
        ]
    );
}

#[test]
fn derived_authority_always_signs_under_the_unconditional_override() {
    let accounts = derived_transfer(SignerOverride::Always);
    assert_eq!(
        accounts.to_account_metas(Some(false)),
        vec![
            meta(1, false, false),
            meta(2, false, true),
            meta(3, true, false),
            meta(4, false, true),
        ]
    );
    assert_eq!(accounts.to_account_metas(None)[2], meta(3, true, false));
    assert_eq!(accounts.to_account_metas(Some(true))[2], meta(3, true, false));
}

#[test]
fn signer_override_policies() {
    assert!(SignerOverride::Always.signs(None));
    assert!(SignerOverride::Always.signs(Some(false)));
    assert!(SignerOverride::Always.signs(Some(true)));
    assert!(SignerOverride::IfUnset.signs(None));
    assert!(!SignerOverride::IfUnset.signs(Some(false)));
    assert!(SignerOverride::IfUnset.signs(Some(true)));
}

#[test]
fn preflight_invocation_has_static_resources_only() {
    let ctx = CpiContext::new(target(), plain_transfer())
        .with_remaining_accounts(vec![live(9, true, true)]);
    let invocation = call_preflight_interface_function("transfer", &ctx, &[]);
    assert_eq!(invocation.program_id, builder_id(0x50));
    assert_eq!(invocation.accounts, plain_transfer().to_account_metas(Some(false)));
    assert_eq!(invocation.handles, static_handles());
    assert_eq!(invocation.data, vec![157, 132, 245, 90, 97, 234, 123, 226]);
    assert_eq!(invocation.signer_seeds, None);
}

#[test]
fn preflight_invocation_carries_the_arguments_behind_the_selector() {
    let ctx = CpiContext::new(target(), plain_transfer());
    let invocation = call_preflight_interface_function("transfer", &ctx, &[1, 2, 3]);
    let mut expected = selector("global", "preflight_transfer").to_vec();
    expected.extend([1, 2, 3]);
    assert_eq!(invocation.data, expected);
}

#[test]
fn preflight_invocation_is_never_signed_for() {
    let authority = SigningAuthority {
        seeds: vec![b"listing".to_vec()],
        bump: 254,
    };
    let ctx = CpiContext::new_with_signer(
        target(),
        derived_transfer(SignerOverride::IfUnset),
        authority,
    );
    let invocation = call_preflight_interface_function("transfer", &ctx, &[]);
    assert_eq!(invocation.signer_seeds, None);
    assert_eq!(invocation.accounts[2], meta(3, false, false));
}

#[test]
fn no_declared_resources_leave_the_static_metas() {
    let ctx = CpiContext::new(target(), plain_transfer()).with_remaining_accounts(vec![
        live(10, false, false),
        live(11, false, false),
    ]);
    let declared = PreflightPayload { accounts: vec![] };
    let invocation = call_interface_function("transfer", &ctx, &[], &declared).unwrap();
    assert_eq!(invocation.accounts, plain_transfer().to_account_metas(None));
    assert_eq!(invocation.handles, static_handles());
    assert_eq!(invocation.data, vec![163, 52, 200, 231, 140, 3, 69, 186]);
    assert_eq!(invocation.program_id, builder_id(0x50));
}

#[test]
fn three_declared_resources_among_five_candidates() {
    let candidates = vec![
        live(10, false, false),
        live(11, true, true),
        live(12, false, true),
        live(13, true, false),
        live(14, false, false),
    ];
    let ctx = CpiContext::new(target(), plain_transfer()).with_remaining_accounts(candidates);
    let declared = PreflightPayload {
        accounts: vec![
            asks(13, false, true),
            asks(10, false, true),
            asks(12, false, false),
        ],
    };
    let invocation = call_interface_function("transfer", &ctx, &[], &declared).unwrap();
    assert_eq!(invocation.accounts.len(), 4 + 3);
    assert_eq!(
        invocation.accounts,
        vec![
            meta(1, false, false),
            meta(2, false, true),
            meta(3, true, false),
            meta(4, false, true),
            meta(13, false, true),
            meta(10, false, true),
            meta(12, false, false),
        ]
    );
    assert_eq!(
        invocation.handles,
        vec![
            HandleRef::Static(0),
            HandleRef::Static(1),
            HandleRef::Static(2),
            HandleRef::Static(3),
            HandleRef::Candidate(3),
            HandleRef::Candidate(0),
            HandleRef::Candidate(2),
        ]
    );
}

#[test]
fn declared_flags_stand_against_the_flags_of_the_candidate() {
    let declared = PreflightPayload {
        accounts: vec![asks(10, false, false), asks(11, true, true)],
    };
    let quiet = CpiContext::new(target(), plain_transfer())
        .with_remaining_accounts(vec![live(10, false, false), live(11, false, false)]);
    let loud = CpiContext::new(target(), plain_transfer())
        .with_remaining_accounts(vec![live(10, true, true), live(11, true, true)]);
    let from_quiet = call_interface_function("transfer", &quiet, &[], &declared).unwrap();
    let from_loud = call_interface_function("transfer", &loud, &[], &declared).unwrap();
    assert_eq!(from_quiet.accounts[4], meta(10, false, false));
    assert_eq!(from_quiet.accounts[5], meta(11, true, true));
    assert_eq!(from_quiet.accounts, from_loud.accounts);
}

#[test]
fn execute_invocation_fails_on_a_missing_candidate() {
    let ctx = CpiContext::new(target(), plain_transfer())
        .with_remaining_accounts(vec![live(10, false, false)]);
    let declared = PreflightPayload {
        accounts: vec![asks(10, false, false), asks(77, false, false)],
    };
    assert_eq!(
        call_interface_function("transfer", &ctx, &[], &declared),
        Err(CallError::NotFound(builder_id(77)))
    );
}

#[test]
fn execute_invocation_carries_the_signing_authority() {
    let authority = SigningAuthority {
        seeds: vec![b"listing".to_vec(), vec![1, 2, 3], vec![]],
        bump: 253,
    };
    let ctx = CpiContext::new(target(), derived_transfer(SignerOverride::IfUnset))
        .with_signer(authority.clone())
        .with_remaining_accounts(vec![live(10, false, false)]);
    let declared = PreflightPayload {
        accounts: vec![asks(10, false, true)],
    };
    let invocation = call_interface_function("transfer", &ctx, &[9], &declared).unwrap();
    assert_eq!(invocation.signer_seeds, Some(authority));
    assert_eq!(invocation.accounts[2], meta(3, true, false));
    assert_eq!(invocation.accounts[4], meta(10, false, true));
    let mut data = selector("global", "transfer").to_vec();
    data.push(9);
    assert_eq!(invocation.data, data);
}

#[test]
fn a_resource_may_be_static_and_declared() {
    let ctx = CpiContext::new(target(), plain_transfer())
        .with_remaining_accounts(vec![live(4, false, false), live(1, false, false)]);
    let declared = PreflightPayload {
        accounts: vec![asks(1, false, true)],
    };
    let invocation = call_interface_function("transfer", &ctx, &[], &declared).unwrap();
    assert_eq!(invocation.accounts[0], meta(1, false, false));
    assert_eq!(invocation.accounts[4], meta(1, false, true));
    assert_eq!(invocation.handles[0], HandleRef::Static(0));
    assert_eq!(invocation.handles[4], HandleRef::Candidate(1));
}

#[test]
fn signing_authority_duplicates_seeds_and_bump() {
    let authority = SigningAuthority {
        seeds: vec![vec![1], vec![], vec![2, 3]],
        bump: 7,
    };
    assert_eq!(authority.duplicate(), authority);
}

#[test]
fn context_builders_set_their_fields() {
    let authority = SigningAuthority {
        seeds: vec![vec![1]],
        bump: 255,
    };
    let ctx = CpiContext::new(target(), plain_transfer());
    assert_eq!(ctx.program, target());
    assert_eq!(ctx.accounts, plain_transfer());
    assert!(ctx.remaining_accounts.is_empty());
    assert_eq!(ctx.signer_seeds, None);
    let ctx = ctx
        .with_signer(authority.clone())
        .with_remaining_accounts(vec![live(8, false, false)]);
    assert_eq!(ctx.signer_seeds, Some(authority.clone()));
    assert_eq!(ctx.remaining_accounts, vec![live(8, false, false)]);
    let ctx = CpiContext::new_with_signer(target(), plain_transfer(), authority.clone());
    assert_eq!(ctx.signer_seeds, Some(authority));
    assert!(ctx.remaining_accounts.is_empty());
}

fn listed_accounts() -> StaticAccounts {
    StaticAccounts {
        metas_unset: vec![meta(1, true, false), meta(2, false, true)],
        metas_unsigned: vec![meta(1, false, false), meta(2, false, true)],
        metas_signed: vec![meta(1, true, false), meta(2, true, true)],
        infos: vec![live(1, true, false), live(2, false, true)],
    }
}

#[test]
fn listed_accounts_give_the_list_for_the_flag() {
    let accounts = listed_accounts();
    assert_eq!(accounts.to_account_metas(None), accounts.metas_unset);
    assert_eq!(accounts.to_account_metas(Some(false)), accounts.metas_unsigned);
    assert_eq!(accounts.to_account_metas(Some(true)), accounts.metas_signed);
    assert_eq!(accounts.to_account_infos(), accounts.infos);
}

#[test]
fn listed_accounts_build_both_invocations() {
    let ctx = CpiContext::new(target(), listed_accounts())
        .with_remaining_accounts(vec![live(10, false, false)]);
    let preflight = call_preflight_interface_function("burn", &ctx, &[]);
    assert_eq!(preflight.accounts, listed_accounts().metas_unsigned);
    assert_eq!(
        preflight.handles,
        vec![HandleRef::Static(0), HandleRef::Static(1)]
    );
    assert_eq!(preflight.data, selector("global", "preflight_burn").to_vec());
    let declared = PreflightPayload {
        accounts: vec![asks(10, true, false)],
    };
    let real = call_interface_function("burn", &ctx, &[], &declared).unwrap();
    assert_eq!(
        real.accounts,
        vec![meta(1, true, false), meta(2, false, true), meta(10, true, false)]
    );
    assert_eq!(
        real.handles,
        vec![
            HandleRef::Static(0),
            HandleRef::Static(1),
            HandleRef::Candidate(0)
        ]
    );
    assert_eq!(real.data, selector("global", "burn").to_vec());
}

#[test]
fn host_seeds_end_with_the_bump() {
    let authority = SigningAuthority {
        seeds: vec![b"listing".to_vec(), vec![1, 2]],
        bump: 254,
    };
    assert_eq!(
        authority.to_seeds(),
        vec![b"listing".to_vec(), vec![1, 2], vec![254]]
    );
    let bare = SigningAuthority {
        seeds: vec![],
        bump: 0,
    };
    assert_eq!(bare.to_seeds(), vec![vec![0]]);
}

#[test]
fn an_authority_is_spelled_by_seeds_that_end_with_a_bump() {
    assert_eq!(
        SigningAuthority::from_seeds(vec![b"listing".to_vec(), vec![], vec![7]]),
        Some(SigningAuthority {
            seeds: vec![b"listing".to_vec(), vec![]],
            bump: 7,
        })
    );
    assert_eq!(
        SigningAuthority::from_seeds(vec![vec![9]]),
        Some(SigningAuthority {
            seeds: vec![],
            bump: 9,
        })
    );
}

#[test]
fn no_authority_is_spelled_without_a_bump() {
    assert_eq!(SigningAuthority::from_seeds(vec![]), None);
    assert_eq!(SigningAuthority::from_seeds(vec![vec![1], vec![]]), None);
    assert_eq!(SigningAuthority::from_seeds(vec![vec![1], vec![2, 3]]), None);
}

#[test]
fn host_seeds_and_authority_convert_without_loss() {
    let seeds = vec![vec![1, 2, 3], vec![], vec![4]];
    let authority = SigningAuthority::from_seeds(seeds.clone()).unwrap();
    assert_eq!(authority.to_seeds(), seeds);
    assert_eq!(
        SigningAuthority::from_seeds(authority.to_seeds()),
        Some(authority)
    );
}
