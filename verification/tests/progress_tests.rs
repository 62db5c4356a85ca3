//! Progress tracker tests: milestone resolution over status sequences,
//! terminal failures, and module-error surfacing from block events.

use subxt::metadata::{CallDef, ErrorDef, Metadata, Pallet};
use subxt::progress::{ChainEvent, TransactionProgress, TxError, TxStatus};

fn tracker() -> TransactionProgress {
    TransactionProgress::new(vec![0x11u8; 32])
}

fn staking_metadata() -> Metadata {
    Metadata {
        pallets: vec![Pallet {
            name: b"Staking".to_vec(),
            index: 6,
            calls: vec![CallDef { name: b"bond".to_vec(), index: 0, args: vec![] }],
            storage: vec![],
            errors: vec![ErrorDef {
                index: 3,
                name: b"NotController".to_vec(),
                docs: vec![],
            }],
        }],
    }
}

#[test]
fn finalized_uses_the_finalized_block_not_a_superseded_one() {
    let a = vec![0xaau8; 32];
    let b = vec![0xbbu8; 32];
    let statuses = vec![
        TxStatus::Ready,
        TxStatus::Broadcast,
        TxStatus::InBlock(a.clone()),
        TxStatus::InBlock(b.clone()),
        TxStatus::Finalized(b.clone()),
    ];
    let h = tracker().wait_for_finalized(&statuses).unwrap();
    assert_eq!(h, b, "finality must resolve with the finalized block, ignoring the fork");
}

#[test]
fn in_block_resolves_on_the_first_inclusion() {
    let a = vec![0xaau8; 32];
    let b = vec![0xbbu8; 32];
    let statuses = vec![
        TxStatus::Ready,
        TxStatus::InBlock(a.clone()),
        TxStatus::InBlock(b.clone()),
    ];
    let h = tracker().wait_for_in_block(&statuses).unwrap();
    assert_eq!(h, a);
}

#[test]
fn finalized_never_resolves_on_an_in_block_only_stream() {
    let statuses = vec![
        TxStatus::Ready,
        TxStatus::Broadcast,
        TxStatus::InBlock(vec![0xaau8; 32]),
    ];
    let r = tracker().wait_for_finalized(&statuses);
    assert!(
        matches!(r, Err(TxError::ConnectionLost)),
        "an InBlock-only stream must not count as finalized"
    );
}

#[test]
fn dropped_fails_both_waits() {
    let statuses = vec![TxStatus::Ready, TxStatus::Dropped];
    let r = tracker().wait_for_in_block(&statuses);
    assert!(matches!(r, Err(TxError::TransactionFailed(TxStatus::Dropped))));
    let r = tracker().wait_for_finalized(&statuses);
    assert!(matches!(r, Err(TxError::TransactionFailed(TxStatus::Dropped))));
}

#[test]
fn invalid_and_usurped_fail_the_wait() {
    let statuses = vec![TxStatus::Future, TxStatus::Invalid];
    assert!(matches!(
        tracker().wait_for_finalized(&statuses),
        Err(TxError::TransactionFailed(TxStatus::Invalid))
    ));
    let usurper = vec![0xccu8; 32];
    let statuses = vec![TxStatus::Ready, TxStatus::Usurped(usurper.clone())];
    match tracker().wait_for_in_block(&statuses) {
        Err(TxError::TransactionFailed(TxStatus::Usurped(h))) => assert_eq!(h, usurper),
        other => panic!("expected a usurped failure, got {:?}", other),
    }
}

#[test]
fn module_error_in_block_events_is_resolved_to_names() {
    let b = vec![0xbbu8; 32];
    let statuses = vec![TxStatus::Ready, TxStatus::Finalized(b)];
    let events = vec![
        ChainEvent::Other { pallet_index: 0, event_index: 0 },
        ChainEvent::ExtrinsicFailed { pallet_index: 6, error_index: 3 },
    ];
    let m = staking_metadata();
    match tracker().wait_for_finalized_success(&statuses, &events, &m) {
        Err(TxError::ModuleError { pallet, error }) => {
            assert_eq!(pallet, b"Staking".to_vec());
            assert_eq!(error, b"NotController".to_vec());
        }
        other => panic!("expected a resolved module error, got {:?}", other),
    }
}

#[test]
fn finalized_success_passes_clean_events_through() {
    let b = vec![0xbbu8; 32];
    let statuses = vec![
        TxStatus::Ready,
        TxStatus::InBlock(vec![0xaau8; 32]),
        TxStatus::Finalized(b.clone()),
    ];
    let events = vec![
        ChainEvent::Other { pallet_index: 0, event_index: 0 },
        ChainEvent::ExtrinsicSuccess,
    ];
    let m = staking_metadata();
    let h = tracker()
        .wait_for_finalized_success(&statuses, &events, &m)
        .unwrap();
    assert_eq!(h, b);
}

#[test]
fn unknown_module_error_keeps_the_indices() {
    let statuses = vec![TxStatus::Finalized(vec![0xbbu8; 32])];
    let events = vec![ChainEvent::ExtrinsicFailed { pallet_index: 9, error_index: 1 }];
    let m = staking_metadata();
    match tracker().wait_for_finalized_success(&statuses, &events, &m) {
        Err(TxError::UnknownModuleError { pallet_index, error_index }) => {
            assert_eq!(pallet_index, 9);
            assert_eq!(error_index, 1);
        }
        other => panic!("expected an unresolved module error, got {:?}", other),
    }
}

#[test]
fn empty_stream_reports_the_connection() {
    let statuses: Vec<TxStatus> = vec![];
    assert!(matches!(
        tracker().wait_for_in_block(&statuses),
        Err(TxError::ConnectionLost)
    ));
    assert!(matches!(
        tracker().wait_for_finalized(&statuses),
        Err(TxError::ConnectionLost)
    ));
}
