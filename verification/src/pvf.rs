//! The state-transition function of the chain and the types it works on.
//!
//! The chain's whole state is a single `u64` counter. A block adds a number
//! to it with wrapping arithmetic. Headers commit to the state through a
//! 32-byte digest of its canonical encoding.

use vstd::prelude::*;
use vstd::bytes::{spec_u64_to_le_bytes, spec_u64_from_le_bytes};

verus! {

broadcast use vstd::array::group_array_axioms;

/// Head data for the chain: one block header.
#[derive(Clone, Copy, Debug)]
pub struct HeadData {
    /// Block number.
    pub number: u64,
    /// Parent block hash.
    pub parent_hash: [u8; 32],
    /// Post-execution state hash.
    pub post_state: [u8; 32],
}

/// Block data for the chain: one block body.
#[derive(Clone, Copy, Debug)]
pub struct BlockData {
    /// State to begin from.
    pub state: u64,
    /// Amount to add (wrapping).
    pub add: u64,
}

/// Start state mismatched with the parent header's state hash.
#[derive(Debug)]
pub struct StateMismatch;

/// The 32-byte digest that the chain uses, as a function of the hashed bytes.
pub uninterp spec fn blake3_of(data: Seq<u8>) -> Seq<u8>;

/// Relies on `blake3::hash`: a 32-byte digest computed from the input bytes
/// alone.
#[verifier::external_body]
pub fn hash(data: &[u8]) -> (r: [u8; 32])
    ensures
        r@ == blake3_of(data@),
{
    blake3::hash(data).into()
}

/// Relies on `parity_scale_codec::Encode::encode` for `u64`: fixed-width
/// integers are encoded as their little-endian bytes.
#[verifier::external_body]
pub(crate) fn scale_encode_u64(x: u64) -> (r: Vec<u8>)
    ensures
        r@ == spec_u64_to_le_bytes(x),
{
    parity_scale_codec::Encode::encode(&x)
}

/// Relies on `parity_scale_codec::Decode::decode` for `u64`: reads exactly
/// eight little-endian bytes from the front of the input, and fails when
/// fewer are available.
#[verifier::external_body]
pub(crate) fn scale_decode_u64(data: &[u8]) -> (r: Option<u64>)
    ensures
        data@.len() >= 8 ==> r == Some(spec_u64_from_le_bytes(data@.subrange(0, 8))),
        data@.len() < 8 ==> r is None,
{
    <u64 as parity_scale_codec::Decode>::decode(&mut &data[..]).ok()
}

/// The canonical encoding of a header: number (8 bytes, little-endian),
/// then the parent hash, then the post-state digest.
pub open spec fn spec_head_bytes(h: HeadData) -> Seq<u8> {
    spec_u64_to_le_bytes(h.number) + h.parent_hash@ + h.post_state@
}

/// The canonical encoding of a block body: the start state, then the
/// increment, each 8 bytes little-endian.
pub open spec fn spec_block_bytes(b: BlockData) -> Seq<u8> {
    spec_u64_to_le_bytes(b.state) + spec_u64_to_le_bytes(b.add)
}

/// The digest a header's `post_state` must carry for a given state value.
pub open spec fn spec_state_digest(state: u64) -> Seq<u8> {
    blake3_of(spec_u64_to_le_bytes(state))
}

/// Hash the canonical encoding of a state value.
pub fn hash_state(state: u64) -> (r: [u8; 32])
    ensures
        r@ == spec_state_digest(state),
{
    let bytes = scale_encode_u64(state);
    hash(bytes.as_slice())
}

/// Compare two 32-byte digests.
pub fn bytes32_eq(a: &[u8; 32], b: &[u8; 32]) -> (r: bool)
    ensures
        r == (a@ == b@),
{
    let mut i: usize = 0;
    while i < 32
        invariant
            0 <= i <= 32,
            forall|j: int| 0 <= j < i ==> a@[j] == b@[j],
        decreases 32 - i,
    {
        if a[i] != b[i] {
            assert(a@ != b@);
            return false;
        }
        i += 1;
    }
    proof {
        assert(a@ =~= b@);
    }
    true
}

impl HeadData {
    /// The canonical encoding of this header.
    pub fn encode(&self) -> (r: Vec<u8>)
        ensures
            r@ == spec_head_bytes(*self),
    {
        let mut out = scale_encode_u64(self.number);
        let mut i: usize = 0;
        while i < 32
            invariant
                0 <= i <= 32,
                out@ == spec_u64_to_le_bytes(self.number) + self.parent_hash@.subrange(0, i as int),
            decreases 32 - i,
        {
            out.push(self.parent_hash[i]);
            proof {
                assert(out@ =~= spec_u64_to_le_bytes(self.number)
                    + self.parent_hash@.subrange(0, i + 1));
            }
            i += 1;
        }
        proof {
            assert(self.parent_hash@.subrange(0, 32) =~= self.parent_hash@);
        }
        let mut i: usize = 0;
        while i < 32
            invariant
                0 <= i <= 32,
                out@ == spec_u64_to_le_bytes(self.number) + self.parent_hash@
                    + self.post_state@.subrange(0, i as int),
            decreases 32 - i,
        {
            out.push(self.post_state[i]);
            proof {
                assert(out@ =~= spec_u64_to_le_bytes(self.number) + self.parent_hash@
                    + self.post_state@.subrange(0, i + 1));
            }
            i += 1;
        }
        proof {
            assert(self.post_state@.subrange(0, 32) =~= self.post_state@);
            assert(out@ =~= spec_head_bytes(*self));
        }
        out
    }

    /// The digest of this header's canonical encoding.
    pub fn hash(&self) -> (r: [u8; 32])
        ensures
            r@ == blake3_of(spec_head_bytes(*self)),
    {
        let bytes = self.encode();
        hash(bytes.as_slice())
    }

    /// Read a header back from the front of its canonical encoding.
    /// Trailing bytes are ignored, as the wire format allows.
    pub fn decode(data: &[u8]) -> (r: Option<HeadData>)
        ensures
            match r {
                Some(h) => head_parsed_from(h, data@),
                None => data@.len() < 72,
            },
    {
        if data.len() < 72 {
            return None;
        }
        let number = scale_decode_u64(data).unwrap();
        let mut parent_hash = [0u8; 32];
        let mut post_state = [0u8; 32];
        let mut i: usize = 0;
        while i < 32
            invariant
                0 <= i <= 32,
                data@.len() >= 72,
                forall|j: int| 0 <= j < i ==> parent_hash@[j] == data@[8 + j],
            decreases 32 - i,
        {
            parent_hash[i] = data[8 + i];
            i += 1;
        }
        let mut i: usize = 0;
        while i < 32
            invariant
                0 <= i <= 32,
                data@.len() >= 72,
                forall|j: int| 0 <= j < i ==> post_state@[j] == data@[40 + j],
            decreases 32 - i,
        {
            post_state[i] = data[40 + i];
            i += 1;
        }
        let h = HeadData { number, parent_hash, post_state };
        proof {
            assert(h.parent_hash@ =~= data@.subrange(8, 40));
            assert(h.post_state@ =~= data@.subrange(40, 72));
        }
        Some(h)
    }
}

impl BlockData {
    /// The canonical encoding of this block body, the proof payload an
    /// independent validator re-executes.
    pub fn encode(&self) -> (r: Vec<u8>)
        ensures
            r@ == spec_block_bytes(*self),
    {
        let mut out = scale_encode_u64(self.state);
        let mut tail = scale_encode_u64(self.add);
        out.append(&mut tail);
        out
    }
}

impl PartialEq for HeadData {
    /// Structural equality: equal fields, compared byte for byte.
    fn eq(&self, other: &HeadData) -> (r: bool) {
        let r = self.number == other.number
            && bytes32_eq(&self.parent_hash, &other.parent_hash)
            && bytes32_eq(&self.post_state, &other.post_state);
        proof {
            if r {
                assert(self.parent_hash =~= other.parent_hash);
                assert(self.post_state =~= other.post_state);
            }
        }
        r
    }
}

impl vstd::std_specs::cmp::PartialEqSpecImpl for HeadData {
    open spec fn obeys_eq_spec() -> bool {
        true
    }

    open spec fn eq_spec(&self, other: &HeadData) -> bool {
        *self == *other
    }
}

/// What it means for a header to be read from the front of a byte sequence:
/// the number from the first 8 bytes (little-endian), then the parent hash,
/// then the post-state digest.
pub open spec fn head_parsed_from(h: HeadData, data: Seq<u8>) -> bool {
    &&& data.len() >= 72
    &&& h.number == spec_u64_from_le_bytes(data.subrange(0, 8))
    &&& h.parent_hash@ == data.subrange(8, 40)
    &&& h.post_state@ == data.subrange(40, 72)
}

/// At most one header is read from given bytes: parsing is a function of
/// the input.
pub proof fn lemma_head_parse_unique(h1: HeadData, h2: HeadData, data: Seq<u8>)
    requires
        head_parsed_from(h1, data),
        head_parsed_from(h2, data),
    ensures
        h1 == h2,
{
    assert(h1.parent_hash =~= h2.parent_hash);
    assert(h1.post_state =~= h2.post_state);
}

/// A header's canonical encoding parses back to the same header.
pub proof fn lemma_head_encode_parses(h: HeadData)
    ensures
        head_parsed_from(h, spec_head_bytes(h)),
{
    vstd::bytes::lemma_auto_spec_u64_to_from_le_bytes();
    let data = spec_head_bytes(h);
    assert(data.subrange(0, 8) =~= spec_u64_to_le_bytes(h.number));
    assert(data.subrange(8, 40) =~= h.parent_hash@);
    assert(data.subrange(40, 72) =~= h.post_state@);
}

/// The fields the state-transition function gives the new header: the next
/// block number, the digest of the parent header as the back link, and the
/// digest of the advanced state's canonical encoding.
pub open spec fn executed_head(
    parent_hash: Seq<u8>,
    parent_head: HeadData,
    block: BlockData,
    h: HeadData,
) -> bool {
    &&& h.number == parent_head.number + 1
    &&& h.parent_hash@ == parent_hash
    &&& h.post_state@ == spec_state_digest(block.state.wrapping_add(block.add))
}

/// The state-transition function has exactly one output for given inputs:
/// any two headers carrying the fields it produces are equal, bit for bit.
pub proof fn lemma_execute_deterministic(
    parent_hash: Seq<u8>,
    parent_head: HeadData,
    block: BlockData,
    h1: HeadData,
    h2: HeadData,
)
    requires
        executed_head(parent_hash, parent_head, block, h1),
        executed_head(parent_hash, parent_head, block, h2),
    ensures
        h1 == h2,
{
    assert(h1.parent_hash =~= h2.parent_hash);
    assert(h1.post_state =~= h2.post_state);
}

/// Execute a block body on top of the given parent head, producing the new
/// head if the body starts from the state the parent committed to.
///
/// The caller guarantees that `parent_hash` is the digest of `parent_head`'s
/// canonical encoding; handing anything else in is a logic error, not a
/// recoverable condition.
pub fn execute(
    parent_hash: [u8; 32],
    parent_head: HeadData,
    block_data: &BlockData,
) -> (r: Result<HeadData, StateMismatch>)
    requires
        parent_hash@ == blake3_of(spec_head_bytes(parent_head)),
        parent_head.number < u64::MAX,
    ensures
        match r {
            Ok(h) => {
                &&& spec_state_digest(block_data.state) == parent_head.post_state@
                &&& executed_head(parent_hash@, parent_head, *block_data, h)
            },
            Err(_) => spec_state_digest(block_data.state) != parent_head.post_state@,
        },
{
    let start_digest = hash_state(block_data.state);
    if !bytes32_eq(&start_digest, &parent_head.post_state) {
        return Err(StateMismatch);
    }

    let new_state = block_data.state.wrapping_add(block_data.add);

    Ok(HeadData {
        number: parent_head.number + 1,
        parent_hash,
        post_state: hash_state(new_state),
    })
}

} // verus!
