//! The store that maps each known header to the state value it committed to.
//!
//! The store owns invocation of the state-transition function: `advance`
//! looks the parent up, builds the block body, executes it, and records the
//! new header. It grows monotonically; nothing is ever removed.

use vstd::prelude::*;
use crate::pvf::{
    execute, hash_state, blake3_of, executed_head, spec_head_bytes, spec_state_digest,
    BlockData, HeadData,
};

verus! {

broadcast use vstd::array::group_array_axioms;

/// The amount added to the state when producing a new block.
pub const ADD: u64 = 7;

/// The shape of the genesis header: block number zero, an all-zero parent
/// hash, and the digest of state zero's canonical encoding.
pub open spec fn is_genesis_head(h: HeadData) -> bool {
    &&& h.number == 0
    &&& h.parent_hash@ == Seq::new(32, |i: int| 0u8)
    &&& h.post_state@ == spec_state_digest(0)
}

/// The mapping a sequence of entries stands for; a later entry for the same
/// header wins.
spec fn map_of(s: Seq<(HeadData, u64)>) -> Map<HeadData, u64>
    decreases s.len(),
{
    if s.len() == 0 {
        Map::empty()
    } else {
        map_of(s.drop_last()).insert(s.last().0, s.last().1)
    }
}

proof fn lemma_map_of_contains(s: Seq<(HeadData, u64)>, k: HeadData)
    ensures
        map_of(s).contains_key(k) <==> exists|i: int| 0 <= i < s.len() && (#[trigger] s[i]).0 == k,
    decreases s.len(),
{
    if s.len() > 0 {
        lemma_map_of_contains(s.drop_last(), k);
        if s.last().0 == k {
            assert(s[s.len() - 1].0 == k);
        } else {
            if map_of(s).contains_key(k) {
                let i = choose|i: int| 0 <= i < s.drop_last().len() && (#[trigger] s.drop_last()[i]).0 == k;
                assert(s[i].0 == k);
            }
            if exists|i: int| 0 <= i < s.len() && (#[trigger] s[i]).0 == k {
                let i = choose|i: int| 0 <= i < s.len() && (#[trigger] s[i]).0 == k;
                assert(i < s.len() - 1);
                assert(s.drop_last()[i].0 == k);
            }
        }
    }
}

proof fn lemma_map_of_get(s: Seq<(HeadData, u64)>, i: int)
    requires
        0 <= i < s.len(),
        forall|j: int| i < j < s.len() ==> (#[trigger] s[j]).0 != s[i].0,
    ensures
        map_of(s).contains_key(s[i].0),
        map_of(s)[s[i].0] == s[i].1,
    decreases s.len(),
{
    if i == s.len() - 1 {
    } else {
        lemma_map_of_get(s.drop_last(), i);
        assert(s.drop_last()[i] == s[i]);
    }
}

proof fn lemma_map_of_index_of(s: Seq<(HeadData, u64)>, k: HeadData)
    requires
        map_of(s).contains_key(k),
    ensures
        exists|j: int| 0 <= j < s.len() && s[j] == (k, map_of(s)[k]),
    decreases s.len(),
{
    if s.len() > 0 {
        if s.last().0 == k {
            assert(s[s.len() - 1] == (k, map_of(s)[k]));
        } else {
            lemma_map_of_index_of(s.drop_last(), k);
            let j = choose|j: int| 0 <= j < s.drop_last().len()
                && s.drop_last()[j] == (k, map_of(s.drop_last())[k]);
            assert(s[j] == (k, map_of(s)[k]));
        }
    }
}

proof fn lemma_map_of_binding(s: Seq<(HeadData, u64)>)
    requires
        forall|i: int| 0 <= i < s.len()
            ==> (#[trigger] s[i]).0.post_state@ == spec_state_digest(s[i].1),
    ensures
        forall|k: HeadData| #[trigger] map_of(s).contains_key(k)
            ==> k.post_state@ == spec_state_digest(map_of(s)[k]),
    decreases s.len(),
{
    if s.len() > 0 {
        assert forall|i: int| 0 <= i < s.drop_last().len() implies (#[trigger] s.drop_last()[i]).0.post_state@
            == spec_state_digest(s.drop_last()[i].1) by {
            assert(s.drop_last()[i] == s[i]);
        }
        lemma_map_of_binding(s.drop_last());
        assert forall|k: HeadData| #[trigger] map_of(s).contains_key(k) implies k.post_state@
            == spec_state_digest(map_of(s)[k]) by {
            if k == s.last().0 {
                assert(s[s.len() - 1].0.post_state@ == spec_state_digest(s[s.len() - 1].1));
            } else {
                assert(map_of(s.drop_last()).contains_key(k));
            }
        }
    }
}

/// One store entry follows from another by a successful invocation of the
/// state-transition function: the child header is the function's output on
/// the parent header and its recorded state, and the child's recorded state
/// is the advanced value.
spec fn stf_link(parent: (HeadData, u64), child: (HeadData, u64)) -> bool {
    &&& executed_head(
        blake3_of(spec_head_bytes(parent.0)),
        parent.0,
        (BlockData { state: parent.1, add: ADD }),
        child.0,
    )
    &&& child.1 == parent.1.wrapping_add(ADD)
}

/// The authoritative map from a header to the state value behind it.
pub struct StateDb {
    entries: Vec<(HeadData, u64)>,
}

impl View for StateDb {
    type V = Map<HeadData, u64>;

    closed spec fn view(&self) -> Map<HeadData, u64> {
        map_of(self.entries@)
    }
}

impl StateDb {
    /// Every recorded header commits, through its `post_state` digest, to
    /// the state value stored for it; and every entry was produced either
    /// as the genesis header or by a successful state transition from an
    /// earlier entry.
    #[verifier::type_invariant]
    spec fn wf(self) -> bool {
        &&& forall|i: int| 0 <= i < self.entries@.len()
            ==> (#[trigger] self.entries@[i]).0.post_state@
                == spec_state_digest(self.entries@[i].1)
        &&& forall|i: int| 0 <= i < self.entries@.len()
            ==> is_genesis_head((#[trigger] self.entries@[i]).0)
                || exists|j: int| 0 <= j < i
                    && #[trigger] stf_link(self.entries@[j], self.entries@[i])
    }

    /// Init the genesis state.
    pub fn genesis() -> (s: Self)
        ensures
            exists|h: HeadData| #[trigger] is_genesis_head(h)
                && s@ == Map::<HeadData, u64>::empty().insert(h, 0u64),
    {
        let genesis_state = genesis_head_data();
        let mut entries: Vec<(HeadData, u64)> = Vec::new();
        entries.push((genesis_state, 0));
        let s = StateDb { entries };
        proof {
            assert(s.entries@.len() == 1);
            assert(s.entries@.drop_last() =~= Seq::<(HeadData, u64)>::empty());
            assert(map_of(Seq::<(HeadData, u64)>::empty()) == Map::<HeadData, u64>::empty());
            assert(s.entries@.last() == (genesis_state, 0u64));
            assert(s@ == map_of(s.entries@.drop_last()).insert(genesis_state, 0u64));
            assert(s@ =~= Map::<HeadData, u64>::empty().insert(genesis_state, 0u64));
        }
        s
    }

    /// Whether the store knows the given header.
    pub fn contains(&self, head: &HeadData) -> (r: bool)
        ensures
            r == self@.contains_key(*head),
    {
        self.lookup(head).is_some()
    }

    /// The state value recorded for the given header, if any.
    pub fn lookup(&self, head: &HeadData) -> (r: Option<u64>)
        ensures
            match r {
                Some(v) => self@.contains_key(*head) && self@[*head] == v,
                None => !self@.contains_key(*head),
            },
    {
        let n = self.entries.len();
        let mut i: usize = n;
        while i > 0
            invariant
                i <= n,
                n == self.entries@.len(),
                forall|j: int| i <= j < n ==> (#[trigger] self.entries@[j]).0 != *head,
            decreases i,
        {
            i -= 1;
            if self.entries[i].0 == *head {
                proof {
                    lemma_map_of_get(self.entries@, i as int);
                }
                return Some(self.entries[i].1);
            }
        }
        proof {
            lemma_map_of_contains(self.entries@, *head);
        }
        None
    }

    /// Advance the state and produce a new block based on the given
    /// `parent_head`, which must already be known to the store and must not
    /// have exhausted the block-number counter.
    ///
    /// Returns the new block body and the new header, and records the new
    /// header with the advanced state value.
    pub fn advance(&mut self, parent_head: HeadData) -> (r: (BlockData, HeadData))
        requires
            old(self)@.contains_key(parent_head),
            parent_head.number < u64::MAX,
        ensures
            r.0 == (BlockData { state: old(self)@[parent_head], add: ADD }),
            executed_head(blake3_of(spec_head_bytes(parent_head)), parent_head, r.0, r.1),
            final(self)@ == old(self)@.insert(r.1, r.0.state.wrapping_add(ADD)),
    {
        proof {
            use_type_invariant(&*self);
            lemma_map_of_binding(self.entries@);
        }
        let ghost s_old = self.entries@;
        let state = self.lookup(&parent_head).unwrap();
        let block = BlockData { state, add: ADD };

        let parent_hash = parent_head.hash();
        let new_head = match execute(parent_hash, parent_head, &block) {
            Ok(h) => h,
            Err(_) => unreached(),
        };

        let new_state = state.wrapping_add(ADD);
        let mut entries: Vec<(HeadData, u64)> = Vec::new();
        std::mem::swap(&mut entries, &mut self.entries);
        entries.push((new_head, new_state));
        proof {
            let s_new = entries@;
            lemma_map_of_index_of(s_old, parent_head);
            let j0 = choose|j: int| 0 <= j < s_old.len() && s_old[j] == (parent_head, map_of(s_old)[parent_head]);
            assert(stf_link(s_new[j0], s_new[s_new.len() - 1]));
            assert forall|i: int| 0 <= i < s_new.len() implies is_genesis_head(
                (#[trigger] s_new[i]).0,
            ) || exists|j: int| 0 <= j < i && #[trigger] stf_link(s_new[j], s_new[i]) by {
                if i < s_old.len() {
                    assert(s_new[i] == s_old[i]);
                    if !is_genesis_head(s_old[i].0) {
                        let j = choose|j: int| 0 <= j < i && #[trigger] stf_link(s_old[j], s_old[i]);
                        assert(stf_link(s_new[j], s_new[i]));
                    }
                }
            }
        }
        self.entries = entries;
        proof {
            assert(self.entries@.drop_last() =~= old(self).entries@);
            assert(self@ =~= old(self)@.insert(new_head, new_state));
        }
        (block, new_head)
    }
}

/// The genesis header: block number zero, an all-zero parent hash, and the
/// digest of state zero's canonical encoding.
pub fn genesis_head_data() -> (h: HeadData)
    ensures
        is_genesis_head(h),
{
    let h = HeadData { number: 0, parent_hash: [0u8; 32], post_state: hash_state(0) };
    proof {
        assert(h.parent_hash@ =~= Seq::new(32, |i: int| 0u8));
    }
    h
}

/// The canonical encoding of the genesis header, for registration with the
/// coordinating chain.
pub fn export_genesis_head() -> (r: Vec<u8>)
    ensures
        exists|h: HeadData| #[trigger] is_genesis_head(h) && r@ == spec_head_bytes(h),
{
    let h = genesis_head_data();
    h.encode()
}

/// Genesis construction is deterministic: any two headers with the genesis
/// shape are equal, bit for bit, and so are their canonical encodings and
/// digests.
pub proof fn lemma_genesis_idempotent(h1: HeadData, h2: HeadData)
    requires
        is_genesis_head(h1),
        is_genesis_head(h2),
    ensures
        h1 == h2,
        spec_head_bytes(h1) == spec_head_bytes(h2),
        blake3_of(spec_head_bytes(h1)) == blake3_of(spec_head_bytes(h2)),
{
    assert(h1.parent_hash =~= h2.parent_hash);
    assert(h1.post_state =~= h2.post_state);
}

/// Rounds are serialized on the store: once an advancement has recorded its
/// new header, a back-to-back second round that starts from that header
/// reads exactly the state the first round recorded. Together with
/// `advance`'s postcondition on the store's map, this is the visibility half
/// of the single-writer discipline; the mutual exclusion itself is the
/// caller's lock around the store.
pub proof fn lemma_second_round_sees_first(m: Map<HeadData, u64>, h1: HeadData, v1: u64)
    ensures
        m.insert(h1, v1).contains_key(h1),
        m.insert(h1, v1)[h1] == v1,
{
}

/// Block numbers count advancements: along any chain of headers that starts
/// at genesis and where each header is the state-transition function's
/// output on its predecessor, the header after N advancements carries
/// number N.
pub proof fn lemma_monotonic_numbering(heads: Seq<HeadData>, blocks: Seq<BlockData>)
    requires
        heads.len() > 0,
        blocks.len() == heads.len() - 1,
        is_genesis_head(heads[0]),
        forall|i: int| 0 <= i < blocks.len()
            ==> executed_head(
                blake3_of(spec_head_bytes(heads[i])),
                heads[i],
                #[trigger] blocks[i],
                heads[i + 1],
            ),
    ensures
        forall|i: int| 0 <= i < heads.len() ==> (#[trigger] heads[i]).number == i,
    decreases heads.len(),
{
    if heads.len() > 1 {
        assert forall|i: int| 0 <= i < blocks.drop_last().len() implies executed_head(
            blake3_of(spec_head_bytes(heads.drop_last()[i])),
            heads.drop_last()[i],
            #[trigger] blocks.drop_last()[i],
            heads.drop_last()[i + 1],
        ) by {
            assert(blocks.drop_last()[i] == blocks[i]);
            assert(heads.drop_last()[i] == heads[i]);
            assert(heads.drop_last()[i + 1] == heads[i + 1]);
        }
        lemma_monotonic_numbering(heads.drop_last(), blocks.drop_last());
        assert forall|i: int| 0 <= i < heads.len() implies (#[trigger] heads[i]).number == i by {
            if i < heads.len() - 1 {
                assert(heads.drop_last()[i] == heads[i]);
            } else {
                let n = heads.len() - 1;
                assert(heads.drop_last()[n - 1] == heads[n - 1]);
                assert(heads[n - 1].number == n - 1);
                assert(executed_head(
                    blake3_of(spec_head_bytes(heads[n - 1])),
                    heads[n - 1],
                    blocks[n - 1],
                    heads[n],
                ));
            }
        }
    }
}

} // verus!
