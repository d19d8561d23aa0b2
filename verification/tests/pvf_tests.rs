use parity_scale_codec::Encode;
use pba_collator::pvf::{execute, hash, hash_state, BlockData, HeadData, StateMismatch};

#[test]
fn execute_is_deterministic() {
    let parent = HeadData { number: 0, parent_hash: [0u8; 32], post_state: hash_state(5) };
    let block = BlockData { state: 5, add: 3 };
    let h1 = execute(parent.hash(), parent, &block).unwrap();
    let h2 = execute(parent.hash(), parent, &block).unwrap();
    assert!(h1 == h2);
    assert_eq!(h1.number, 1);
    assert_eq!(h1.parent_hash, parent.hash());
    assert_eq!(h1.post_state, hash_state(8));
}

#[test]
fn execute_wraps_the_state() {
    // state 2^64 - 4 plus 7 wraps around to 3.
    let start: u64 = u64::MAX - 3;
    let parent = HeadData { number: 7, parent_hash: [1u8; 32], post_state: hash_state(start) };
    let block = BlockData { state: start, add: 7 };
    let new_head = execute(parent.hash(), parent, &block).unwrap();
    assert_eq!(start.wrapping_add(7), 3);
    assert_eq!(new_head.number, 8);
    assert_eq!(new_head.post_state, hash_state(3));
}

#[test]
fn execute_rejects_mismatched_state() {
    let parent = HeadData { number: 0, parent_hash: [0u8; 32], post_state: hash_state(0) };
    let block = BlockData { state: 1, add: 7 };
    let r = execute(parent.hash(), parent, &block);
    assert!(matches!(r, Err(StateMismatch)));
}

#[test]
fn digest_matches_the_reference_hasher() {
    let data = b"collator";
    assert_eq!(hash(data), *blake3::hash(data).as_bytes());
    // The digest is not the input handed back.
    assert_ne!(hash(&[0u8; 32]), [0u8; 32]);
    // hash_state hashes the state's canonical (little-endian) encoding.
    assert_eq!(hash_state(0), *blake3::hash(&0u64.encode()).as_bytes());
    assert_eq!(hash_state(77), *blake3::hash(&77u64.to_le_bytes()).as_bytes());
}

#[test]
fn head_encoding_matches_the_wire_codec() {
    let head = HeadData { number: 42, parent_hash: [7u8; 32], post_state: [9u8; 32] };
    let bytes = head.encode();
    let mut expected = 42u64.encode();
    expected.extend_from_slice(&[7u8; 32]);
    expected.extend_from_slice(&[9u8; 32]);
    assert_eq!(bytes, expected);
    assert_eq!(bytes.len(), 72);
}

#[test]
fn head_encoding_round_trips() {
    let head = HeadData { number: 3, parent_hash: [4u8; 32], post_state: [5u8; 32] };
    let bytes = head.encode();
    assert!(HeadData::decode(&bytes).unwrap() == head);
    // Trailing bytes are ignored, as the wire format allows.
    let mut longer = bytes.clone();
    longer.push(0xee);
    assert!(HeadData::decode(&longer).unwrap() == head);
    // A truncated encoding is rejected.
    assert!(HeadData::decode(&bytes[..71]).is_none());
    assert!(HeadData::decode(&[]).is_none());
}

#[test]
fn block_encoding_matches_the_wire_codec() {
    let block = BlockData { state: 11, add: 7 };
    let mut expected = 11u64.encode();
    expected.extend_from_slice(&7u64.encode());
    assert_eq!(block.encode(), expected);
    assert_eq!(block.encode().len(), 16);
}
