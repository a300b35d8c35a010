use additional_accounts_request::error::CallError;
use additional_accounts_request::identifier::ResourceIdentifier;
use additional_accounts_request::matcher::{CandidatePool, ResourceHandle};
use additional_accounts_request::payload::{IAccountMeta, PreflightPayload};

fn matcher_id(fill: u8) -> ResourceIdentifier {
    ResourceIdentifier::new([fill; 32])
}

fn handle(fill: u8, is_signer: bool, is_writable: bool) -> ResourceHandle {
    ResourceHandle {
        key: matcher_id(fill),
        owner: matcher_id(0xee),
        is_signer,
        is_writable,
    }
}

fn declared(fills: &[u8]) -> PreflightPayload {
    PreflightPayload {
        accounts: fills
            .iter()
            .map(|fill| IAccountMeta {
                pubkey: matcher_id(*fill),
                signer: false,
                writable: false,
            })
            .collect(),
    }
}

#[test]
fn resolution_keeps_the_declared_order() {
    let pool = vec![
        handle(1, false, false),
        handle(2, false, false),
        handle(3, false, false),
        handle(4, false, false),
        handle(5, false, false),
    ];
    let slots = declared(&[4, 1, 5]).match_accounts(&pool).unwrap();
    assert_eq!(slots, vec![3, 0, 4]);
    let keys: Vec<ResourceIdentifier> = slots.iter().map(|slot| pool[*slot].key).collect();
    assert_eq!(keys, vec![matcher_id(4), matcher_id(1), matcher_id(5)]);
}

#[test]
fn resolution_of_nothing_gives_nothing() {
    let pool = vec![handle(1, false, false)];
    assert_eq!(declared(&[]).match_accounts(&pool), Ok(vec![]));
    assert_eq!(declared(&[]).match_accounts(&[]), Ok(vec![]));
}

#[test]
fn a_resource_declared_twice_resolves_twice() {
    let pool = vec![handle(1, false, false), handle(2, false, false)];
    assert_eq!(
        declared(&[2, 2, 1, 2]).match_accounts(&pool),
        Ok(vec![1, 1, 0, 1])
    );
}

#[test]
fn the_last_registered_handle_wins() {
    let pool = vec![
        handle(1, false, false),
        handle(2, false, false),
        handle(1, true, true),
        handle(3, false, false),
    ];
    assert_eq!(declared(&[1, 2]).match_accounts(&pool), Ok(vec![2, 1]));
}

#[test]
fn a_missing_identifier_is_not_found() {
    let pool = vec![handle(1, false, false), handle(2, false, false)];
    assert_eq!(
        declared(&[1, 9, 2]).match_accounts(&pool),
        Err(CallError::NotFound(matcher_id(9)))
    );
}

#[test]
fn the_first_missing_identifier_is_named() {
    let pool = vec![handle(1, false, false)];
    assert_eq!(
        declared(&[1, 8, 9]).match_accounts(&pool),
        Err(CallError::NotFound(matcher_id(8)))
    );
    assert_eq!(
        declared(&[9, 8, 1]).match_accounts(&pool),
        Err(CallError::NotFound(matcher_id(9)))
    );
}

#[test]
fn nothing_is_found_in_an_empty_pool() {
    assert_eq!(
        declared(&[1]).match_accounts(&[]),
        Err(CallError::NotFound(matcher_id(1)))
    );
}

#[test]
fn identifiers_are_matched_on_all_their_bytes() {
    let mut bytes = [1u8; 32];
    bytes[31] = 2;
    let near = ResourceIdentifier::new(bytes);
    let pool = vec![ResourceHandle {
        key: near,
        owner: matcher_id(0),
        is_signer: false,
        is_writable: false,
    }];
    assert_eq!(
        declared(&[1]).match_accounts(&pool),
        Err(CallError::NotFound(matcher_id(1)))
    );
    let payload = PreflightPayload {
        accounts: vec![IAccountMeta {
            pubkey: near,
            signer: false,
            writable: false,
        }],
    };
    assert_eq!(payload.match_accounts(&pool), Ok(vec![0]));
}

#[test]
fn pool_looks_up_the_last_registration() {
    let mut pool = CandidatePool::new();
    assert_eq!(pool.len(), 0);
    assert_eq!(pool.lookup(&matcher_id(1)), None);
    pool.register(handle(1, false, false));
    pool.register(handle(2, false, false));
    assert_eq!(pool.lookup(&matcher_id(1)), Some(0));
    pool.register(handle(1, true, false));
    assert_eq!(pool.len(), 3);
    assert_eq!(pool.lookup(&matcher_id(1)), Some(2));
    assert_eq!(pool.lookup(&matcher_id(2)), Some(1));
    assert_eq!(pool.lookup(&matcher_id(3)), None);
}

#[test]
fn pool_hands_out_handles_by_slot() {
    let handles = vec![handle(1, false, true), handle(2, true, false)];
    let pool = CandidatePool::from_handles(&handles);
    assert_eq!(pool.len(), 2);
    assert_eq!(pool.get(0), Some(handles[0]));
    assert_eq!(pool.get(1), Some(handles[1]));
    assert_eq!(pool.get(2), None);
}

fn sharing_front(tail: u8) -> ResourceIdentifier {
    let mut bytes = [0x11u8; 32];
    bytes[8] = tail;
    ResourceIdentifier::new(bytes)
}

fn bound_to(key: ResourceIdentifier) -> ResourceHandle {
    ResourceHandle {
        key,
        owner: matcher_id(0xee),
        is_signer: false,
        is_writable: false,
    }
}

#[test]
fn identifiers_that_start_alike_are_told_apart() {
    let mut pool = CandidatePool::new();
    pool.register(bound_to(sharing_front(1)));
    pool.register(bound_to(sharing_front(2)));
    pool.register(bound_to(matcher_id(0x22)));
    pool.register(bound_to(sharing_front(1)));
    pool.register(bound_to(sharing_front(3)));
    assert_eq!(pool.lookup(&sharing_front(1)), Some(3));
    assert_eq!(pool.lookup(&sharing_front(2)), Some(1));
    assert_eq!(pool.lookup(&sharing_front(3)), Some(4));
    assert_eq!(pool.lookup(&sharing_front(4)), None);
    assert_eq!(pool.lookup(&matcher_id(0x22)), Some(2));
    assert_eq!(pool.lookup(&matcher_id(0x11)), None);
}

#[test]
fn resolution_among_identifiers_that_start_alike() {
    let pool = vec![
        bound_to(sharing_front(5)),
        bound_to(sharing_front(6)),
        bound_to(sharing_front(5)),
        bound_to(sharing_front(7)),
    ];
    let payload = PreflightPayload {
        accounts: vec![
            IAccountMeta {
                pubkey: sharing_front(7),
                signer: false,
                writable: false,
            },
            IAccountMeta {
                pubkey: sharing_front(5),
                signer: false,
                writable: true,
            },
            IAccountMeta {
                pubkey: sharing_front(6),
                signer: true,
                writable: false,
            },
        ],
    };
    assert_eq!(payload.match_accounts(&pool), Ok(vec![3, 2, 1]));
    let payload = PreflightPayload {
        accounts: vec![IAccountMeta {
            pubkey: sharing_front(8),
            signer: false,
            writable: false,
        }],
    };
    assert_eq!(
        payload.match_accounts(&pool),
        Err(CallError::NotFound(sharing_front(8)))
    );
}

#[test]
fn a_large_pool_is_resolved_slot_by_slot() {
    let pool: Vec<ResourceHandle> = (0..600u32)
        .map(|i| {
            let mut bytes = [0u8; 32];
            bytes[0] = (i % 7) as u8;
            bytes[20] = (i % 256) as u8;
            bytes[21] = (i / 256) as u8;
            bound_to(ResourceIdentifier::new(bytes))
        })
        .collect();
    let payload = PreflightPayload {
        accounts: pool
            .iter()
            .rev()
            .map(|handle| IAccountMeta {
                pubkey: handle.key,
                signer: false,
                writable: false,
            })
            .collect(),
    };
    let expected: Vec<usize> = (0..600).rev().collect();
    assert_eq!(payload.match_accounts(&pool), Ok(expected));
}
