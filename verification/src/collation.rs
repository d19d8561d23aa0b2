//! Per-round collation production and confirmation reconciliation.
//!
//! One round decodes the announced parent header, advances the store, and
//! packages the result as a collation artifact together with the digest of
//! its proof payload. A watcher later reconciles the asynchronous
//! acceptance signal against that digest.

use vstd::prelude::*;
use crate::pvf::{
    blake3_of, executed_head, hash, head_parsed_from, spec_block_bytes, spec_head_bytes,
    BlockData, HeadData,
};
use crate::store::{StateDb, ADD};

verus! {

/// The collation artifact handed to the external scheduler: the encoded
/// block body as the proof payload, the encoded new header, empty
/// cross-chain messaging fields, and the round's watermark.
#[derive(Debug)]
pub struct Collation {
    /// Messages to the coordinating chain; always empty for this chain.
    pub upward_messages: Vec<Vec<u8>>,
    /// Messages to sibling chains; always empty for this chain.
    pub horizontal_messages: Vec<Vec<u8>>,
    /// A replacement validation code; never supplied by this chain.
    pub new_validation_code: Option<Vec<u8>>,
    /// The canonical encoding of the newly produced header.
    pub head_data: Vec<u8>,
    /// The canonical encoding of the block body: the proof payload.
    pub proof_of_validity: Vec<u8>,
    /// How many downward messages were consumed; none ever are.
    pub processed_downward_messages: u32,
    /// The round's sequence number, echoed for message-ordering bookkeeping.
    pub hrmp_watermark: u32,
}

/// Why a round was rejected instead of producing a collation.
#[derive(Debug, PartialEq, Eq, Structural, Clone, Copy)]
pub enum ProduceError {
    /// The supplied parent-header bytes do not decode to a header.
    DecodeFailure,
    /// The decoded parent header is not known to the store.
    UnknownParentHead,
    /// The parent header's block number has no successor in 64 bits.
    NumberExhausted,
}

/// What one successful round produces, given the store's map before and
/// after, the decoded parent header and the round's watermark: the block
/// body built from the parent's recorded state, the header the
/// state-transition function made of it, the artifact that carries both
/// encodings with empty messaging fields, and the digest of the proof
/// payload.
pub open spec fn produced_round(
    before: Map<HeadData, u64>,
    after: Map<HeadData, u64>,
    parent: HeadData,
    watermark: u32,
    c: Collation,
    pov_hash: [u8; 32],
) -> bool {
    let block = (BlockData { state: before[parent], add: ADD });
    &&& (exists|nh: HeadData| {
        &&& #[trigger] executed_head(blake3_of(spec_head_bytes(parent)), parent, block, nh)
        &&& c.head_data@ == spec_head_bytes(nh)
        &&& after == before.insert(nh, block.state.wrapping_add(ADD))
    })
    &&& c.proof_of_validity@ == spec_block_bytes(block)
    &&& c.upward_messages@.len() == 0
    &&& c.horizontal_messages@.len() == 0
    &&& c.new_validation_code is None
    &&& c.processed_downward_messages == 0
    &&& c.hrmp_watermark == watermark
    &&& pov_hash@ == blake3_of(c.proof_of_validity@)
}

/// Run one production round: decode the parent header, advance the store,
/// and build the collation artifact together with the digest of its proof
/// payload, against which the round's confirmation signal is later checked.
///
/// A rejected round reports why and leaves the store untouched.
pub fn produce_collation(
    store: &mut StateDb,
    parent_head_bytes: &[u8],
    relay_parent_number: u32,
) -> (r: Result<(Collation, [u8; 32]), ProduceError>)
    ensures
        (r matches Err(ProduceError::DecodeFailure)) <==> parent_head_bytes@.len() < 72,
        r is Err ==> final(store)@ == old(store)@,
        forall|p: HeadData| head_parsed_from(p, parent_head_bytes@) ==> {
            &&& ((r matches Err(ProduceError::NumberExhausted)) <==> p.number == u64::MAX)
            &&& ((r matches Err(ProduceError::UnknownParentHead))
                <==> (p.number < u64::MAX && !old(store)@.contains_key(p)))
            &&& (r matches Ok(out)
                ==> produced_round(
                    old(store)@,
                    final(store)@,
                    p,
                    relay_parent_number,
                    out.0,
                    out.1,
                ))
        },
{
    let parent = match HeadData::decode(parent_head_bytes) {
        Some(p) => p,
        None => {
            return Err(ProduceError::DecodeFailure);
        },
    };
    proof {
        assert forall|p: HeadData| head_parsed_from(p, parent_head_bytes@) implies p == parent by {
            crate::pvf::lemma_head_parse_unique(p, parent, parent_head_bytes@);
        }
    }
    if parent.number == u64::MAX {
        return Err(ProduceError::NumberExhausted);
    }
    if !store.contains(&parent) {
        return Err(ProduceError::UnknownParentHead);
    }

    let (block_data, head_data) = store.advance(parent);

    let pov = block_data.encode();
    let pov_hash = hash(pov.as_slice());

    let collation = Collation {
        upward_messages: Vec::new(),
        horizontal_messages: Vec::new(),
        new_validation_code: None,
        head_data: head_data.encode(),
        proof_of_validity: pov,
        processed_downward_messages: 0,
        hrmp_watermark: relay_parent_number,
    };

    Ok((collation, pov_hash))
}

/// An acceptance signal delivered for a produced collation.
#[derive(Debug, Clone, Copy)]
pub enum ConfirmationSignal {
    /// The coordinating chain seconded a collation whose proof payload has
    /// the given digest.
    Seconded([u8; 32]),
    /// A signal that does not assert acceptance.
    Other,
}

/// The terminal state of one round's confirmation watcher.
#[derive(Debug, PartialEq, Eq, Structural, Clone, Copy)]
pub enum WatchOutcome {
    /// The signal asserted acceptance of exactly what was produced.
    Confirmed,
    /// The signal did not match what was produced; fail-fast, the caller
    /// must escalate.
    Mismatched,
    /// The delivery point closed with no signal; the collation was
    /// abandoned, quietly.
    Abandoned,
}

/// Reconcile the signal a watcher received, if any, against the proof
/// payload digest the watcher was spawned for.
pub fn reconcile_confirmation(
    expected_pov_hash: &[u8; 32],
    signal: Option<ConfirmationSignal>,
) -> (r: WatchOutcome)
    ensures
        match signal {
            None => r == WatchOutcome::Abandoned,
            Some(ConfirmationSignal::Seconded(d)) => r == (if d@ == expected_pov_hash@ {
                WatchOutcome::Confirmed
            } else {
                WatchOutcome::Mismatched
            }),
            Some(ConfirmationSignal::Other) => r == WatchOutcome::Mismatched,
        },
{
    match signal {
        None => WatchOutcome::Abandoned,
        Some(ConfirmationSignal::Seconded(d)) => {
            if crate::pvf::bytes32_eq(&d, expected_pov_hash) {
                WatchOutcome::Confirmed
            } else {
                WatchOutcome::Mismatched
            }
        },
        Some(ConfirmationSignal::Other) => WatchOutcome::Mismatched,
    }
}

} // verus!
