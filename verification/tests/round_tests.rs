use parity_scale_codec::Encode;
use pba_collator::collation::{
    produce_collation, reconcile_confirmation, ConfirmationSignal, ProduceError, WatchOutcome,
};
use pba_collator::pvf::{hash, hash_state, HeadData};
use pba_collator::store::{export_genesis_head, genesis_head_data, StateDb, ADD};

#[test]
fn genesis_is_idempotent() {
    let g1 = genesis_head_data();
    let g2 = genesis_head_data();
    assert!(g1 == g2);
    assert_eq!(g1.encode(), g2.encode());
    assert_eq!(g1.hash(), g2.hash());
    assert_eq!(export_genesis_head(), g1.encode());
    assert_eq!(g1.number, 0);
    assert_eq!(g1.parent_hash, [0u8; 32]);
    assert_eq!(g1.post_state, hash_state(0));
}

#[test]
fn advancement_numbers_count_rounds() {
    let mut db = StateDb::genesis();
    let mut parent = genesis_head_data();
    for n in 1..=5u64 {
        let (block, head) = db.advance(parent);
        assert_eq!(head.number, n);
        assert_eq!(block.add, ADD);
        assert_eq!(block.state, (n - 1) * ADD);
        assert_eq!(head.parent_hash, parent.hash());
        assert_eq!(head.post_state, hash_state(n * ADD));
        parent = head;
    }
}

#[test]
fn store_records_each_advancement() {
    let mut db = StateDb::genesis();
    let genesis = genesis_head_data();
    assert!(db.contains(&genesis));
    assert_eq!(db.lookup(&genesis), Some(0));
    let (_, head) = db.advance(genesis);
    assert_eq!(db.lookup(&head), Some(ADD));
    assert!(db.contains(&genesis));
    let stranger = HeadData { number: 9, parent_hash: [3u8; 32], post_state: [4u8; 32] };
    assert!(!db.contains(&stranger));
    assert_eq!(db.lookup(&stranger), None);
}

#[test]
fn rounds_back_to_back_compose() {
    let mut db = StateDb::genesis();
    let parent_bytes = export_genesis_head();

    let (c1, d1) = produce_collation(&mut db, &parent_bytes, 100).unwrap();
    assert_eq!(c1.hrmp_watermark, 100);
    assert_eq!(d1, hash(&c1.proof_of_validity));
    let mut pov1 = 0u64.encode();
    pov1.extend_from_slice(&ADD.encode());
    assert_eq!(c1.proof_of_validity, pov1);
    assert!(c1.upward_messages.is_empty());
    assert!(c1.horizontal_messages.is_empty());
    assert!(c1.new_validation_code.is_none());
    assert_eq!(c1.processed_downward_messages, 0);

    // The second round starts from the header the first produced and sees
    // the state the first recorded.
    let (c2, d2) = produce_collation(&mut db, &c1.head_data, 101).unwrap();
    let h2 = HeadData::decode(&c2.head_data).unwrap();
    assert_eq!(h2.number, 2);
    let mut pov2 = ADD.encode();
    pov2.extend_from_slice(&ADD.encode());
    assert_eq!(c2.proof_of_validity, pov2);
    assert_eq!(c2.hrmp_watermark, 101);
    assert_ne!(d1, d2);
}

#[test]
fn malformed_parent_bytes_are_rejected() {
    let mut db = StateDb::genesis();
    let r = produce_collation(&mut db, &[1, 2, 3], 0);
    assert_eq!(r.unwrap_err(), ProduceError::DecodeFailure);
}

#[test]
fn unknown_parent_is_rejected() {
    let mut db = StateDb::genesis();
    let stranger = HeadData { number: 3, parent_hash: [1u8; 32], post_state: [2u8; 32] };
    let r = produce_collation(&mut db, &stranger.encode(), 0);
    assert_eq!(r.unwrap_err(), ProduceError::UnknownParentHead);
}

#[test]
fn exhausted_block_number_is_rejected() {
    let mut db = StateDb::genesis();
    let maxed = HeadData { number: u64::MAX, parent_hash: [0u8; 32], post_state: [0u8; 32] };
    let r = produce_collation(&mut db, &maxed.encode(), 0);
    assert_eq!(r.unwrap_err(), ProduceError::NumberExhausted);
}

#[test]
fn watcher_accepts_only_its_own_digest() {
    let d = [5u8; 32];
    assert_eq!(
        reconcile_confirmation(&d, Some(ConfirmationSignal::Seconded(d))),
        WatchOutcome::Confirmed,
    );
    assert_eq!(
        reconcile_confirmation(&d, Some(ConfirmationSignal::Seconded([6u8; 32]))),
        WatchOutcome::Mismatched,
    );
    assert_eq!(
        reconcile_confirmation(&d, Some(ConfirmationSignal::Other)),
        WatchOutcome::Mismatched,
    );
    assert_eq!(reconcile_confirmation(&d, None), WatchOutcome::Abandoned);
}
