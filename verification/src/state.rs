//! State transitions: patches, the in-memory accumulator that applies them in
//! canonical key order, and the reference applier that enforces root
//! continuity between transitions.

use core::cmp::Ordering;
use vstd::prelude::*;
use vstd::string::StringSliceAdditionalSpecFns;

use crate::hashing::{
    copy_bytes, extend_bytes, extend_u64_be, lemma_count_framed_distinct, lemma_framed_distinct,
    sha256, spec_len_be, spec_sha256,
};
use crate::key_order::{
    compare_bytes, compare_state_keys, lemma_lexicographic_antisymmetric, lemma_lexicographic_transitive,
    lexicographic_order, state_key_order,
};
use crate::primitives::{roots_equal, Root};
use crate::seq_util::{item_at, skip_to, take_to};
use crate::state_key::{encode_state_key, spec_encode_state_key, StateKey};

verus! {

/// A pre-state root that differs from the state the applier holds.
#[derive(Debug, Clone, Copy, PartialEq, Eq)]
pub struct RootContinuityError {
    pub expected: Root,
    pub actual: Root,
}

/// Keys listed out of canonical order, at the first offending position.
#[derive(Debug, Clone, Copy, PartialEq, Eq)]
pub struct WitnessOrderingError {
    pub index: usize,
    pub context: &'static str,
}

/// Failures of the state layer.
#[derive(Debug, Clone, Copy, PartialEq, Eq)]
pub enum StateError {
    Backend(&'static str),
    RootContinuityMismatch(RootContinuityError),
    NonCanonicalWitnessOrdering(WitnessOrderingError),
    WitnessVerificationFailed(&'static str),
}

/// The keys a transition touches and the new leaf value of each.
#[derive(Debug, Clone, PartialEq, Eq)]
pub struct StatePatch {
    pub accesses: Vec<StateKey>,
    pub new_values: Vec<Vec<u8>>,
}

/// The root after a transition.
#[derive(Debug, Clone, Copy, PartialEq, Eq)]
pub struct StateTransitionOutcome {
    pub post_state_root: Root,
}

/// Applies patches on top of a pre-state root; implemented by callers.
pub trait StateTransitionApplier {
    /// Whether applying `patch` on `pre_state_root` can give `result` and
    /// leave the applier as `after`.
    /// Left unknown unless an implementation defines it.
    closed spec fn applies(
        &self,
        pre_state_root: Root,
        patch: StatePatch,
        result: Result<StateTransitionOutcome, StateError>,
        after: &Self,
    ) -> bool {
        arbitrary()
    }

    fn apply_transition(&mut self, pre_state_root: &Root, patch: &StatePatch) -> (result: Result<
        StateTransitionOutcome,
        StateError,
    >)
        ensures
            old(self).applies(*pre_state_root, *patch, result, final(self)),
    ;
}

/// One leaf of the accumulator: an encoded key and its value.
#[derive(Debug, Clone, PartialEq, Eq)]
pub struct AccumulatorEntry {
    pub key: Vec<u8>,
    pub value: Vec<u8>,
}

/// The leaves of the accumulator, in order.
pub type EntriesView = Seq<(Seq<u8>, Seq<u8>)>;

/// Writes `value` under `key`: an equal key is overwritten in place, and a
/// new key goes before the first leaf whose key is greater.
pub open spec fn spec_upsert(entries: EntriesView, key: Seq<u8>, value: Seq<u8>) -> EntriesView
    decreases entries.len(),
{
    if entries.len() == 0 {
        seq![(key, value)]
    } else {
        match lexicographic_order(key, entries[0].0) {
            Ordering::Equal => seq![(key, value)] + entries.drop_first(),
            Ordering::Less => seq![(key, value)] + entries,
            Ordering::Greater => seq![entries[0]] + spec_upsert(entries.drop_first(), key, value),
        }
    }
}

/// Writes the first `n` key/value pairs of a patch in order.
pub open spec fn spec_apply_writes(
    entries: EntriesView,
    keys: Seq<StateKey>,
    values: Seq<Seq<u8>>,
    n: nat,
) -> EntriesView
    decreases n,
{
    if n == 0 || n > keys.len() || n > values.len() {
        entries
    } else {
        spec_upsert(
            spec_apply_writes(entries, keys, values, (n - 1) as nat),
            spec_encode_state_key(keys[n - 1]),
            values[n - 1],
        )
    }
}

/// The contents of a list of byte vectors.
pub open spec fn value_views(values: Seq<Vec<u8>>) -> Seq<Seq<u8>> {
    values.map_values(|v: Vec<u8>| v@)
}

/// The writes of the first `n` pairs of a patch.
pub open spec fn writes_upto(
    entries: EntriesView,
    keys: Seq<StateKey>,
    values: Seq<Seq<u8>>,
    n: usize,
) -> EntriesView {
    spec_apply_writes(entries, keys, values, n as nat)
}

/// Whether every key of `keys` strictly follows the previous one in
/// canonical order.
pub open spec fn keys_strictly_increasing(keys: Seq<StateKey>) -> bool {
    forall|i: int|
        0 < i < keys.len() ==> #[trigger] state_key_order(keys[i - 1], keys[i]) == Ordering::Less
}

/// The position of the first key that does not strictly follow its
/// predecessor.
pub open spec fn first_order_violation(keys: Seq<StateKey>, index: usize) -> bool {
    &&& 0 < index < keys.len()
    &&& state_key_order(keys[index - 1], item_at(keys, index)) != Ordering::Less
    &&& forall|i: int|
        0 < i < index ==> #[trigger] state_key_order(keys[i - 1], keys[i]) == Ordering::Less
}

/// A key sequence has at most one first out-of-order position.
pub proof fn lemma_first_order_violation_unique(keys: Seq<StateKey>, i: usize, j: usize)
    requires
        first_order_violation(keys, i),
        first_order_violation(keys, j),
    ensures
        i == j,
{
    if i < j {
        assert(state_key_order(keys[i - 1], item_at(keys, i)) == Ordering::Less);
    } else if j < i {
        assert(state_key_order(keys[j - 1], item_at(keys, j)) == Ordering::Less);
    }
}

/// The framing of the first `n` leaves.
pub open spec fn spec_encode_entries(entries: EntriesView, n: nat) -> Seq<u8>
    decreases n,
{
    if n == 0 || n > entries.len() {
        Seq::empty()
    } else {
        spec_encode_entries(entries, (n - 1) as nat) + spec_len_be(entries[n - 1].0.len())
            + entries[n - 1].0 + spec_len_be(entries[n - 1].1.len()) + entries[n - 1].1
    }
}

/// The domain tag of accumulator roots.
pub open spec fn accumulator_root_tag() -> Seq<u8> {
    "shell-state/in-memory-accumulator-v1".spec_bytes()
}

/// The state root of a leaf sequence: all zeros when empty, otherwise the
/// digest of the tag, the leaf count and every framed leaf in order.
pub open spec fn spec_entries_root(entries: EntriesView) -> Seq<u8> {
    if entries.len() == 0 {
        Seq::new(32, |i: int| 0u8)
    } else {
        spec_sha256(
            accumulator_root_tag() + spec_len_be(entries.len()) + spec_encode_entries(
                entries,
                entries.len(),
            ),
        )
    }
}

/// Leaf sequences that agree on their first `k` leaves frame them alike.
proof fn lemma_encode_entries_agree(first: EntriesView, second: EntriesView, k: nat)
    requires
        k <= first.len(),
        k <= second.len(),
        forall|i: int| 0 <= i < k ==> first[i] == second[i],
    ensures
        spec_encode_entries(first, k) == spec_encode_entries(second, k),
    decreases k,
{
    if k > 0 {
        lemma_encode_entries_agree(first, second, (k - 1) as nat);
        assert(first[k - 1] == second[k - 1]);
    }
}

/// The framing of the first `n` leaves extends that of the first `k`.
proof fn lemma_encode_entries_split(entries: EntriesView, k: nat, n: nat) -> (rest: Seq<u8>)
    requires
        k <= n <= entries.len(),
    ensures
        spec_encode_entries(entries, n) == spec_encode_entries(entries, k) + rest,
    decreases n,
{
    if n == k {
        assert(spec_encode_entries(entries, n) =~= spec_encode_entries(entries, k) + Seq::empty());
        Seq::empty()
    } else {
        let before = lemma_encode_entries_split(entries, k, (n - 1) as nat);
        let leaf = spec_len_be(entries[n - 1].0.len()) + entries[n - 1].0 + spec_len_be(
            entries[n - 1].1.len(),
        ) + entries[n - 1].1;
        assert(spec_encode_entries(entries, n) =~= spec_encode_entries(entries, k) + (before
            + leaf));
        before + leaf
    }
}

/// The first leaf, before `n`, that differs between two sequences.
proof fn lemma_first_leaf_change(first: EntriesView, second: EntriesView, n: int) -> (j: int)
    requires
        0 <= n <= first.len(),
        n <= second.len(),
        exists|k: int| 0 <= k < n && #[trigger] first[k] != second[k],
    ensures
        0 <= j < n,
        first[j] != second[j],
        forall|i: int| 0 <= i < j ==> first[i] == second[i],
    decreases n,
{
    if exists|k: int| 0 <= k < n - 1 && #[trigger] first[k] != second[k] {
        lemma_first_leaf_change(first, second, n - 1)
    } else {
        n - 1
    }
}

/// Whether every key and value of a leaf sequence has a length a `u64`
/// frames.
pub open spec fn leaf_lengths_fit(entries: EntriesView) -> bool {
    forall|i: int|
        0 <= i < entries.len() ==> #[trigger] entries[i].0.len() <= u64::MAX && entries[i].1.len()
            <= u64::MAX
}

/// The state root commits to every leaf: two different non-empty leaf
/// sequences (as long as `u64` frames their lengths) have roots that are
/// digests of different byte strings, whether they differ in the leaf count,
/// in a key or in a value.
pub proof fn lemma_state_root_commits_to_leaves(first: EntriesView, second: EntriesView)
    requires
        first.len() > 0,
        second.len() > 0,
        first.len() <= u64::MAX,
        second.len() <= u64::MAX,
        first != second,
        leaf_lengths_fit(first),
        leaf_lengths_fit(second),
    ensures
        exists|p1: Seq<u8>, p2: Seq<u8>|
            #![trigger spec_sha256(p1), spec_sha256(p2)]
            spec_entries_root(first) == spec_sha256(p1) && spec_entries_root(second) == spec_sha256(
                p2,
            ) && p1 != p2,
{
    let n = first.len();
    let m = second.len();
    let e1 = spec_encode_entries(first, n);
    let e2 = spec_encode_entries(second, m);
    let p1 = accumulator_root_tag() + spec_len_be(n) + e1;
    let p2 = accumulator_root_tag() + spec_len_be(m) + e2;
    assert(spec_entries_root(first) == spec_sha256(p1));
    assert(spec_entries_root(second) == spec_sha256(p2));
    if n != m {
        lemma_count_framed_distinct(accumulator_root_tag(), n, m, e1, e2);
    } else {
        if forall|k: int| 0 <= k < n ==> first[k] == second[k] {
            assert(first =~= second);
        }
        let j = lemma_first_leaf_change(first, second, n as int);
        lemma_encode_entries_agree(first, second, j as nat);
        let rest1 = lemma_encode_entries_split(first, (j + 1) as nat, n);
        let rest2 = lemma_encode_entries_split(second, (j + 1) as nat, n);
        let (k1, v1) = first[j];
        let (k2, v2) = second[j];
        assert(k1.len() <= u64::MAX && v1.len() <= u64::MAX);
        assert(k2.len() <= u64::MAX && v2.len() <= u64::MAX);
        let head = accumulator_root_tag() + spec_len_be(n) + spec_encode_entries(first, j as nat);
        if k1 != k2 {
            assert(p1 =~= head + spec_len_be(k1.len()) + k1 + (spec_len_be(v1.len()) + v1 + rest1));
            assert(p2 =~= head + spec_len_be(k2.len()) + k2 + (spec_len_be(v2.len()) + v2 + rest2));
            lemma_framed_distinct(
                head,
                k1,
                k2,
                spec_len_be(v1.len()) + v1 + rest1,
                spec_len_be(v2.len()) + v2 + rest2,
            );
        } else {
            assert(v1 != v2);
            let prefix = head + spec_len_be(k1.len()) + k1;
            assert(p1 =~= prefix + spec_len_be(v1.len()) + v1 + rest1);
            assert(p2 =~= prefix + spec_len_be(v2.len()) + v2 + rest2);
            lemma_framed_distinct(prefix, v1, v2, rest1, rest2);
        }
    }
}

/// The state root commits to leaf values: two leaf sequences with the same
/// keys whose values differ at some leaf have roots that are digests of
/// different byte strings. So writing a new value under a key moves the
/// state root unless SHA-256 collides.
pub proof fn lemma_state_root_commits_to_values(first: EntriesView, second: EntriesView)
    requires
        first.len() == second.len(),
        first.len() <= u64::MAX,
        forall|i: int| 0 <= i < first.len() ==> #[trigger] first[i].0 == second[i].0,
        exists|j: int| 0 <= j < first.len() && #[trigger] first[j].1 != second[j].1,
        leaf_lengths_fit(first),
        leaf_lengths_fit(second),
    ensures
        exists|p1: Seq<u8>, p2: Seq<u8>|
            #![trigger spec_sha256(p1), spec_sha256(p2)]
            spec_entries_root(first) == spec_sha256(p1) && spec_entries_root(second) == spec_sha256(
                p2,
            ) && p1 != p2,
{
    let j = choose|j: int| 0 <= j < first.len() && #[trigger] first[j].1 != second[j].1;
    assert(first[j] != second[j]);
    lemma_state_root_commits_to_leaves(first, second);
}

/// A sorted in-memory key/value accumulator over canonical key encodings.
#[derive(Debug, Clone, PartialEq, Eq)]
pub struct InMemoryAccumulator {
    entries: Vec<AccumulatorEntry>,
}

impl InMemoryAccumulator {
    /// The leaves, in order.
    pub closed spec fn entries_view(&self) -> EntriesView {
        self.entries@.map_values(|e: AccumulatorEntry| (e.key@, e.value@))
    }

    /// Whether the leaves are strictly sorted by key, as every accumulator
    /// built through this interface keeps them.
    pub open spec fn wf(&self) -> bool {
        entries_sorted(self.entries_view())
    }

    /// An empty accumulator.
    pub fn new() -> (accumulator: Self)
        ensures
            accumulator.entries_view() == Seq::<(Seq<u8>, Seq<u8>)>::empty(),
            accumulator.wf(),
    {
        let accumulator = InMemoryAccumulator { entries: Vec::new() };
        assert(accumulator.entries_view() =~= Seq::<(Seq<u8>, Seq<u8>)>::empty());
        accumulator
    }

    /// The current state root.
    pub fn state_root(&self) -> (root: Root)
        ensures
            root@ == spec_entries_root(self.entries_view()),
    {
        if self.entries.len() == 0 {
            let zero: Root = [0u8; 32];
            assert(zero@ =~= spec_entries_root(self.entries_view()));
            return zero;
        }
        let mut bytes: Vec<u8> = Vec::new();
        extend_bytes(&mut bytes, "shell-state/in-memory-accumulator-v1".as_bytes());
        extend_u64_be(&mut bytes, self.entries.len() as u64);
        let ghost prefix = bytes@;
        let ghost view = self.entries_view();
        let mut i: usize = 0;
        while i < self.entries.len()
            invariant
                0 <= i <= self.entries@.len(),
                view == self.entries_view(),
                view.len() == self.entries@.len(),
                bytes@ == prefix + spec_encode_entries(view, i as nat),
            decreases self.entries@.len() - i,
        {
            let entry = &self.entries[i];
            extend_u64_be(&mut bytes, entry.key.len() as u64);
            extend_bytes(&mut bytes, entry.key.as_slice());
            extend_u64_be(&mut bytes, entry.value.len() as u64);
            extend_bytes(&mut bytes, entry.value.as_slice());
            assert(item_at(view, i) == (entry.key@, entry.value@));
            i += 1;
        }
        sha256(bytes.as_slice())
    }

    fn upsert(&mut self, key: Vec<u8>, value: Vec<u8>)
        ensures
            final(self).entries_view() == spec_upsert(old(self).entries_view(), key@, value@),
    {
        let ghost start = self.entries_view();
        let mut i: usize = 0;
        assert(take_to(start, 0) =~= Seq::<(Seq<u8>, Seq<u8>)>::empty());
        assert(skip_to(start, 0) =~= start);
        while i < self.entries.len()
            invariant
                0 <= i <= self.entries@.len(),
                start == self.entries_view(),
                start == old(self).entries_view(),
                start.len() == self.entries@.len(),
                spec_upsert(start, key@, value@) == take_to(start, i) + spec_upsert(
                    skip_to(start, i),
                    key@,
                    value@,
                ),
            decreases self.entries@.len() - i,
        {
            let order = compare_bytes(key.as_slice(), self.entries[i].key.as_slice());
            let ghost rest = skip_to(start, i);
            assert(rest[0] == item_at(start, i));
            assert(item_at(start, i).0 == item_at(self.entries@, i).key@);
            assert(rest.len() > 0);
            assert(lexicographic_order(key@, rest[0].0) == order);
            match order {
                Ordering::Equal => {
                    assert(spec_upsert(rest, key@, value@) == seq![(key@, value@)]
                        + rest.drop_first());
                    self.entries.set(i, AccumulatorEntry { key, value });
                    assert(self.entries_view() =~= take_to(start, i) + (seq![(key@, value@)]
                        + rest.drop_first()));
                    return ;
                },
                Ordering::Less => {
                    assert(spec_upsert(rest, key@, value@) == seq![(key@, value@)] + rest);
                    self.entries.insert(i, AccumulatorEntry { key, value });
                    assert(self.entries_view() =~= take_to(start, i) + (seq![(key@, value@)]
                        + rest));
                    return ;
                },
                Ordering::Greater => {
                    assert(start.take(i + 1) =~= take_to(start, i) + seq![rest[0]]);
                    assert(rest.drop_first() =~= start.skip(i + 1));
                },
            }
            i += 1;
        }
        self.entries.push(AccumulatorEntry { key, value });
        assert(skip_to(start, i) =~= Seq::<(Seq<u8>, Seq<u8>)>::empty());
        assert(self.entries_view() =~= take_to(start, i) + seq![(key@, value@)]);
    }

    /// Applies a patch: its keys must be strictly increasing in canonical
    /// order and pair one-to-one with the new values. On success every value
    /// is written under its key and the new root is returned; on failure the
    /// accumulator is unchanged.
    pub fn apply_transition(&mut self, patch: &StatePatch) -> (result: Result<Root, StateError>)
        ensures
            patch.accesses@.len() != patch.new_values@.len() ==> result == Err::<Root, StateError>(
                StateError::Backend(PATCH_SHAPE_CONTEXT),
            ),
            patch.accesses@.len() == patch.new_values@.len() && !keys_strictly_increasing(
                patch.accesses@,
            ) ==> (result matches Err(StateError::NonCanonicalWitnessOrdering(e))
                && first_order_violation(patch.accesses@, e.index) && e.context
                == ACCESS_ORDER_CONTEXT),
            result is Ok <==> (patch.accesses@.len() == patch.new_values@.len()
                && keys_strictly_increasing(patch.accesses@)),
            result is Err ==> final(self).entries_view() == old(self).entries_view(),
            old(self).wf() ==> final(self).wf(),
            result matches Ok(root) ==> final(self).entries_view() == spec_apply_writes(
                old(self).entries_view(),
                patch.accesses@,
                value_views(patch.new_values@),
                patch.accesses@.len(),
            ) && root@ == spec_entries_root(final(self).entries_view()),
    {
        if patch.accesses.len() != patch.new_values.len() {
            return Err(StateError::Backend(PATCH_SHAPE_CONTEXT));
        }
        let count = patch.accesses.len();
        let mut i: usize = 1;
        while i < count
            invariant
                count == patch.accesses@.len(),
                count == patch.new_values@.len(),
                1 <= i,
                i <= count || count == 0,
                forall|j: int|
                    0 < j < i && j < count ==> #[trigger] state_key_order(
                        patch.accesses@[j - 1],
                        patch.accesses@[j],
                    ) == Ordering::Less,
            decreases count - i,
        {
            let order = compare_state_keys(&patch.accesses[i - 1], &patch.accesses[i]);
            match order {
                Ordering::Less => {},
                _ => {
                    return Err(
                        StateError::NonCanonicalWitnessOrdering(
                            WitnessOrderingError { index: i, context: ACCESS_ORDER_CONTEXT },
                        ),
                    );
                },
            }
            i += 1;
        }
        let ghost start = self.entries_view();
        let mut k: usize = 0;
        while k < count
            invariant
                count == patch.accesses@.len(),
                count == patch.new_values@.len(),
                0 <= k <= count,
                self.entries_view() == writes_upto(
                    start,
                    patch.accesses@,
                    value_views(patch.new_values@),
                    k,
                ),
            decreases count - k,
        {
            let key = encode_state_key(&patch.accesses[k]).into_vec();
            let value = copy_bytes(patch.new_values[k].as_slice());
            self.upsert(key, value);
            k += 1;
        }
        proof {
            if entries_sorted(start) {
                lemma_writes_upto_keep_sorted(
                    start,
                    patch.accesses@,
                    value_views(patch.new_values@),
                    count,
                );
            }
        }
        Ok(self.state_root())
    }
}

/// The value stored under `key`, if any: the first leaf with that key.
pub open spec fn spec_lookup(entries: EntriesView, key: Seq<u8>) -> Option<Seq<u8>>
    decreases entries.len(),
{
    if entries.len() == 0 {
        None
    } else if entries[0].0 == key {
        Some(entries[0].1)
    } else {
        spec_lookup(entries.drop_first(), key)
    }
}

/// Whether the leaves are strictly increasing by key.
pub open spec fn entries_sorted(entries: EntriesView) -> bool {
    forall|i: int, j: int|
        0 <= i < j < entries.len() ==> lexicographic_order(#[trigger] entries[i].0, #[trigger] entries[j].0)
            == Ordering::Less
}

/// Reading after a write: the written key reads back the written value, and
/// every other key reads what it read before.
pub proof fn lemma_upsert_reads(entries: EntriesView, key: Seq<u8>, value: Seq<u8>, other: Seq<u8>)
    ensures
        spec_lookup(spec_upsert(entries, key, value), key) == Some(value),
        other != key ==> spec_lookup(spec_upsert(entries, key, value), other) == spec_lookup(
            entries,
            other,
        ),
    decreases entries.len(),
{
    if entries.len() > 0 {
        lemma_lexicographic_antisymmetric(key, entries[0].0);
        let rest = entries.drop_first();
        match lexicographic_order(key, entries[0].0) {
            Ordering::Equal => {
                let result = seq![(key, value)] + rest;
                assert(spec_upsert(entries, key, value) == result);
                assert(result.drop_first() =~= rest);
                assert(result[0].0 == key);
                assert(entries[0].0 == key);
                if other != key {
                    assert(spec_lookup(result, other) == spec_lookup(rest, other));
                    assert(spec_lookup(entries, other) == spec_lookup(rest, other));
                    assert(spec_lookup(spec_upsert(entries, key, value), other) == spec_lookup(entries, other));
                }
            },
            Ordering::Less => {
                let result = seq![(key, value)] + entries;
                assert(spec_upsert(entries, key, value) == result);
                assert(result.drop_first() =~= entries);
                assert(result[0].0 == key);
                if other != key {
                    assert(spec_lookup(result, other) == spec_lookup(entries, other));
                    assert(spec_lookup(spec_upsert(entries, key, value), other) == spec_lookup(entries, other));
                }
            },
            Ordering::Greater => {
                lemma_upsert_reads(rest, key, value, other);
                let tail = spec_upsert(rest, key, value);
                let result = seq![entries[0]] + tail;
                assert(spec_upsert(entries, key, value) == result);
                assert(result.drop_first() =~= tail);
                assert(result[0] == entries[0]);
                if other != key {
                    if entries[0].0 == other {
                        assert(spec_lookup(result, other) == Some(entries[0].1));
                    } else {
                        assert(spec_lookup(result, other) == spec_lookup(tail, other));
                        assert(spec_lookup(entries, other) == spec_lookup(rest, other));
                    }
                    assert(spec_lookup(result, other) == spec_lookup(entries, other));
                }
            },
        }
    } else {
        let result = seq![(key, value)];
        assert(spec_upsert(entries, key, value) == result);
        assert(result.drop_first() =~= Seq::<(Seq<u8>, Seq<u8>)>::empty());
        assert(result[0].0 == key);
        if other != key {
            assert(spec_lookup(result, other) == spec_lookup(result.drop_first(), other));
            assert(spec_lookup(result.drop_first(), other) == None::<Seq<u8>>);
            assert(spec_lookup(entries, other) == None::<Seq<u8>>);
        }
    }
}

/// Keys that strictly increase step by step increase across any distance.
proof fn lemma_increasing_keys_ordered(keys: Seq<StateKey>, k: int, j: int)
    requires
        keys_strictly_increasing(keys),
        0 <= k < j < keys.len(),
    ensures
        state_key_order(keys[k], keys[j]) == Ordering::Less,
    decreases j - k,
{
    assert(state_key_order(keys[j - 1], keys[j]) == Ordering::Less);
    if j > k + 1 {
        lemma_increasing_keys_ordered(keys, k, j - 1);
        lemma_lexicographic_transitive(
            spec_encode_state_key(keys[k]),
            spec_encode_state_key(keys[j - 1]),
            spec_encode_state_key(keys[j]),
        );
    }
}

/// Keys that strictly increase have pairwise distinct encodings.
proof fn lemma_increasing_keys_distinct(keys: Seq<StateKey>, k: int, j: int)
    requires
        keys_strictly_increasing(keys),
        0 <= k < j < keys.len(),
    ensures
        spec_encode_state_key(keys[k]) != spec_encode_state_key(keys[j]),
{
    lemma_increasing_keys_ordered(keys, k, j);
    lemma_lexicographic_antisymmetric(spec_encode_state_key(keys[k]), spec_encode_state_key(keys[j]));
}

proof fn lemma_writes_read_back(
    entries: EntriesView,
    keys: Seq<StateKey>,
    values: Seq<Seq<u8>>,
    n: nat,
    k: int,
    other: Seq<u8>,
)
    requires
        n <= keys.len(),
        n <= values.len(),
        keys_strictly_increasing(keys),
    ensures
        0 <= k < n ==> spec_lookup(
            spec_apply_writes(entries, keys, values, n),
            spec_encode_state_key(keys[k]),
        ) == Some(values[k]),
        (forall|m: int| 0 <= m < n ==> spec_encode_state_key(#[trigger] keys[m]) != other)
            ==> spec_lookup(spec_apply_writes(entries, keys, values, n), other) == spec_lookup(
            entries,
            other,
        ),
    decreases n,
{
    if n > 0 {
        let last = (n - 1) as nat;
        let before = spec_apply_writes(entries, keys, values, last);
        let written = spec_encode_state_key(keys[n - 1]);
        lemma_writes_read_back(entries, keys, values, last, k, other);
        assert(spec_apply_writes(entries, keys, values, n) == spec_upsert(before, written, values[n - 1]));
        if 0 <= k < n {
            if k == n - 1 {
                lemma_upsert_reads(before, written, values[n - 1], written);
            } else {
                lemma_increasing_keys_distinct(keys, k, n - 1);
                lemma_upsert_reads(before, written, values[n - 1], spec_encode_state_key(keys[k]));
            }
        }
        if forall|m: int| 0 <= m < n ==> spec_encode_state_key(#[trigger] keys[m]) != other {
            assert(spec_encode_state_key(keys[n - 1]) != other);
            lemma_upsert_reads(before, written, values[n - 1], other);
        }
    }
}

/// Reading after a transition: once a patch whose keys strictly increase is
/// written, every patched key reads its new value, and every key the patch
/// does not touch reads what it read before.
pub proof fn lemma_patch_reads(
    entries: EntriesView,
    keys: Seq<StateKey>,
    values: Seq<Seq<u8>>,
    other: Seq<u8>,
)
    requires
        keys.len() == values.len(),
        keys_strictly_increasing(keys),
    ensures
        forall|k: int|
            0 <= k < keys.len() ==> spec_lookup(
                spec_apply_writes(entries, keys, values, keys.len()),
                spec_encode_state_key(#[trigger] keys[k]),
            ) == Some(values[k]),
        (forall|m: int| 0 <= m < keys.len() ==> spec_encode_state_key(#[trigger] keys[m]) != other)
            ==> spec_lookup(spec_apply_writes(entries, keys, values, keys.len()), other)
            == spec_lookup(entries, other),
{
    assert forall|k: int| 0 <= k < keys.len() implies spec_lookup(
        spec_apply_writes(entries, keys, values, keys.len()),
        spec_encode_state_key(#[trigger] keys[k]),
    ) == Some(values[k]) by {
        lemma_writes_read_back(entries, keys, values, keys.len(), k, other);
    }
    lemma_writes_read_back(entries, keys, values, keys.len(), 0, other);
}

/// Every leaf of a write is either the written pair or a leaf of the old
/// sequence, and the written key bounds the leaves it is placed between.
proof fn lemma_upsert_keys(entries: EntriesView, key: Seq<u8>, value: Seq<u8>)
    requires
        entries_sorted(entries),
    ensures
        entries_sorted(spec_upsert(entries, key, value)),
        forall|i: int|
            0 <= i < spec_upsert(entries, key, value).len() ==> (#[trigger] spec_upsert(
                entries,
                key,
                value,
            )[i].0 == key || exists|j: int|
                0 <= j < entries.len() && entries[j].0 == spec_upsert(entries, key, value)[i].0),
    decreases entries.len(),
{
    let result = spec_upsert(entries, key, value);
    if entries.len() == 0 {
        return;
    }
    lemma_lexicographic_antisymmetric(key, entries[0].0);
    let rest = entries.drop_first();
    assert(entries_sorted(rest)) by {
        assert forall|i: int, j: int| 0 <= i < j < rest.len() implies lexicographic_order(
            #[trigger] rest[i].0,
            #[trigger] rest[j].0,
        ) == Ordering::Less by {
            assert(rest[i] == entries[i + 1] && rest[j] == entries[j + 1]);
        }
    }
    match lexicographic_order(key, entries[0].0) {
        Ordering::Equal => {
            assert forall|i: int| 0 <= i < result.len() implies (#[trigger] result[i].0 == key
                || exists|j: int| 0 <= j < entries.len() && entries[j].0 == result[i].0) by {
                if i > 0 {
                    assert(result[i] == entries[i]);
                }
            }
            assert forall|i: int, j: int| 0 <= i < j < result.len() implies lexicographic_order(
                #[trigger] result[i].0,
                #[trigger] result[j].0,
            ) == Ordering::Less by {
                assert(result[j] == entries[j]);
                if i > 0 {
                    assert(result[i] == entries[i]);
                } else {
                    assert(result[i].0 == entries[0].0);
                }
            }
        },
        Ordering::Less => {
            assert forall|i: int| 0 <= i < result.len() implies (#[trigger] result[i].0 == key
                || exists|j: int| 0 <= j < entries.len() && entries[j].0 == result[i].0) by {
                if i > 0 {
                    assert(result[i] == entries[i - 1]);
                }
            }
            assert forall|i: int, j: int| 0 <= i < j < result.len() implies lexicographic_order(
                #[trigger] result[i].0,
                #[trigger] result[j].0,
            ) == Ordering::Less by {
                assert(result[j] == entries[j - 1]);
                if i > 0 {
                    assert(result[i] == entries[i - 1]);
                } else if j - 1 > 0 {
                    assert(lexicographic_order(entries[0].0, entries[j - 1].0) == Ordering::Less);
                    lemma_lexicographic_transitive(key, entries[0].0, entries[j - 1].0);
                }
            }
        },
        Ordering::Greater => {
            lemma_upsert_keys(rest, key, value);
            let tail = spec_upsert(rest, key, value);
            assert(result == seq![entries[0]] + tail);
            lemma_lexicographic_antisymmetric(entries[0].0, key);
            assert forall|i: int| 0 <= i < result.len() implies (#[trigger] result[i].0 == key
                || exists|j: int| 0 <= j < entries.len() && entries[j].0 == result[i].0) by {
                if i > 0 {
                    assert(result[i] == tail[i - 1]);
                    if tail[i - 1].0 != key {
                        let j = choose|j: int| 0 <= j < rest.len() && rest[j].0 == tail[i - 1].0;
                        assert(entries[j + 1] == rest[j]);
                    }
                } else {
                    assert(entries[0].0 == result[0].0);
                }
            }
            assert forall|i: int, j: int| 0 <= i < j < result.len() implies lexicographic_order(
                #[trigger] result[i].0,
                #[trigger] result[j].0,
            ) == Ordering::Less by {
                assert(result[j] == tail[j - 1]);
                if i > 0 {
                    assert(result[i] == tail[i - 1]);
                } else {
                    assert(result[0] == entries[0]);
                    if tail[j - 1].0 == key {
                    } else {
                        let m = choose|m: int| 0 <= m < rest.len() && rest[m].0 == tail[j - 1].0;
                        assert(entries[m + 1] == rest[m]);
                        assert(lexicographic_order(entries[0].0, entries[m + 1].0) == Ordering::Less);
                    }
                }
            }
        },
    }
}

/// A key that reads a value is the key of some leaf holding that value.
proof fn lemma_lookup_found(entries: EntriesView, key: Seq<u8>)
    requires
        spec_lookup(entries, key) is Some,
    ensures
        exists|i: int|
            0 <= i < entries.len() && #[trigger] entries[i].0 == key && spec_lookup(entries, key)
                == Some(entries[i].1),
    decreases entries.len(),
{
    if entries[0].0 != key {
        let rest = entries.drop_first();
        lemma_lookup_found(rest, key);
        let i = choose|i: int|
            0 <= i < rest.len() && #[trigger] rest[i].0 == key && spec_lookup(rest, key) == Some(
                rest[i].1,
            );
        assert(entries[i + 1] == rest[i]);
    } else {
        assert(entries[0].0 == key);
    }
}

/// The key of every leaf reads some value.
proof fn lemma_lookup_present(entries: EntriesView, i: int)
    requires
        0 <= i < entries.len(),
    ensures
        spec_lookup(entries, entries[i].0) is Some,
    decreases entries.len(),
{
    if i > 0 && entries[0].0 != entries[i].0 {
        let rest = entries.drop_first();
        assert(rest[i - 1] == entries[i]);
        lemma_lookup_present(rest, i - 1);
    }
}

/// In strictly sorted leaves, no later leaf carries the first key.
proof fn lemma_sorted_tail_misses_first(entries: EntriesView)
    requires
        entries.len() > 0,
        entries_sorted(entries),
    ensures
        spec_lookup(entries.drop_first(), entries[0].0) is None,
{
    let rest = entries.drop_first();
    if spec_lookup(rest, entries[0].0) is Some {
        lemma_lookup_found(rest, entries[0].0);
        let i = choose|i: int|
            0 <= i < rest.len() && #[trigger] rest[i].0 == entries[0].0 && spec_lookup(
                rest,
                entries[0].0,
            ) == Some(rest[i].1);
        assert(entries[i + 1] == rest[i]);
        assert(lexicographic_order(entries[0].0, entries[i + 1].0) == Ordering::Less);
        lemma_lexicographic_antisymmetric(entries[0].0, entries[0].0);
    }
}

proof fn lemma_writes_upto_keep_sorted(
    entries: EntriesView,
    keys: Seq<StateKey>,
    values: Seq<Seq<u8>>,
    n: usize,
)
    requires
        entries_sorted(entries),
    ensures
        entries_sorted(writes_upto(entries, keys, values, n)),
{
    lemma_writes_keep_sorted(entries, keys, values, n as nat);
}

/// Strictly sorted leaves are fixed by what their keys read: two sorted leaf
/// sequences that read alike for every key are the same sequence, so the
/// state root depends only on the stored key/value pairs and not on the
/// order or batching of the writes that stored them.
pub proof fn lemma_sorted_entries_determined_by_reads(left: EntriesView, right: EntriesView)
    requires
        entries_sorted(left),
        entries_sorted(right),
        forall|key: Seq<u8>| #[trigger] spec_lookup(left, key) == spec_lookup(right, key),
    ensures
        left == right,
        spec_entries_root(left) == spec_entries_root(right),
    decreases left.len(),
{
    if left.len() == 0 && right.len() == 0 {
        assert(left =~= right);
        return;
    }
    if left.len() == 0 {
        lemma_lookup_present(right, 0);
        assert(spec_lookup(left, right[0].0) is None);
        return;
    }
    if right.len() == 0 {
        lemma_lookup_present(left, 0);
        assert(spec_lookup(right, left[0].0) is None);
        return;
    }
    let a = left[0].0;
    let b = right[0].0;
    if a != b {
        assert(spec_lookup(left, a) == Some(left[0].1));
        lemma_lookup_found(right, a);
        let j = choose|j: int|
            0 <= j < right.len() && #[trigger] right[j].0 == a && spec_lookup(right, a) == Some(
                right[j].1,
            );
        assert(j > 0);
        assert(lexicographic_order(right[0].0, right[j].0) == Ordering::Less);
        assert(spec_lookup(right, b) == Some(right[0].1));
        lemma_lookup_found(left, b);
        let i = choose|i: int|
            0 <= i < left.len() && #[trigger] left[i].0 == b && spec_lookup(left, b) == Some(
                left[i].1,
            );
        assert(i > 0);
        assert(lexicographic_order(left[0].0, left[i].0) == Ordering::Less);
        lemma_lexicographic_antisymmetric(a, b);
        return;
    }
    assert(spec_lookup(left, a) == Some(left[0].1));
    assert(spec_lookup(right, a) == Some(right[0].1));
    assert(left[0] == right[0]);
    let left_rest = left.drop_first();
    let right_rest = right.drop_first();
    lemma_sorted_tail_misses_first(left);
    lemma_sorted_tail_misses_first(right);
    assert(entries_sorted(left_rest)) by {
        assert forall|i: int, j: int| 0 <= i < j < left_rest.len() implies lexicographic_order(
            #[trigger] left_rest[i].0,
            #[trigger] left_rest[j].0,
        ) == Ordering::Less by {
            assert(left_rest[i] == left[i + 1] && left_rest[j] == left[j + 1]);
        }
    }
    assert(entries_sorted(right_rest)) by {
        assert forall|i: int, j: int| 0 <= i < j < right_rest.len() implies lexicographic_order(
            #[trigger] right_rest[i].0,
            #[trigger] right_rest[j].0,
        ) == Ordering::Less by {
            assert(right_rest[i] == right[i + 1] && right_rest[j] == right[j + 1]);
        }
    }
    assert forall|key: Seq<u8>| #[trigger] spec_lookup(left_rest, key) == spec_lookup(
        right_rest,
        key,
    ) by {
        if key != a {
            assert(spec_lookup(left, key) == spec_lookup(left_rest, key));
            assert(spec_lookup(right, key) == spec_lookup(right_rest, key));
        }
    }
    lemma_sorted_entries_determined_by_reads(left_rest, right_rest);
    assert(left =~= right) by {
        assert forall|i: int| 0 <= i < left.len() implies left[i] == right[i] by {
            if i > 0 {
                assert(left[i] == left_rest[i - 1]);
                assert(right[i] == right_rest[i - 1]);
            }
        }
    }
}

/// Writing into strictly sorted leaves keeps them strictly sorted.
pub proof fn lemma_upsert_keeps_sorted(entries: EntriesView, key: Seq<u8>, value: Seq<u8>)
    requires
        entries_sorted(entries),
    ensures
        entries_sorted(spec_upsert(entries, key, value)),
{
    lemma_upsert_keys(entries, key, value);
}

/// A sequence of writes into strictly sorted leaves keeps them strictly
/// sorted.
pub proof fn lemma_writes_keep_sorted(
    entries: EntriesView,
    keys: Seq<StateKey>,
    values: Seq<Seq<u8>>,
    n: nat,
)
    requires
        entries_sorted(entries),
    ensures
        entries_sorted(spec_apply_writes(entries, keys, values, n)),
    decreases n,
{
    if n > 0 && n <= keys.len() && n <= values.len() {
        lemma_writes_keep_sorted(entries, keys, values, (n - 1) as nat);
        lemma_upsert_keeps_sorted(
            spec_apply_writes(entries, keys, values, (n - 1) as nat),
            spec_encode_state_key(keys[n - 1]),
            values[n - 1],
        );
    }
}

/// The reference applier: an accumulator that only accepts transitions whose
/// pre-state root is the root it currently holds.
#[derive(Debug)]
pub struct ReferenceStateApplier {
    accumulator: InMemoryAccumulator,
}

impl ReferenceStateApplier {
    /// The leaves of the held accumulator.
    pub closed spec fn accumulator_view(&self) -> EntriesView {
        self.accumulator.entries_view()
    }

    /// An applier holding `accumulator`.
    pub fn new(accumulator: InMemoryAccumulator) -> (applier: Self)
        ensures
            applier.accumulator_view() == accumulator.entries_view(),
    {
        ReferenceStateApplier { accumulator }
    }

    /// The root of the held state.
    pub fn state_root(&self) -> (root: Root)
        ensures
            root@ == spec_entries_root(self.accumulator_view()),
    {
        self.accumulator.state_root()
    }
}

impl Default for InMemoryAccumulator {
    /// The empty accumulator, whose root is all zeros.
    fn default() -> (accumulator: Self)
        ensures
            accumulator.entries_view() == Seq::<(Seq<u8>, Seq<u8>)>::empty(),
            accumulator.wf(),
    {
        InMemoryAccumulator::new()
    }
}

impl Default for ReferenceStateApplier {
    /// An applier holding the empty accumulator, whose root is all zeros.
    fn default() -> (applier: Self)
        ensures
            applier.accumulator_view() == Seq::<(Seq<u8>, Seq<u8>)>::empty(),
            spec_entries_root(applier.accumulator_view()) == Seq::new(32, |i: int| 0u8),
    {
        ReferenceStateApplier::new(InMemoryAccumulator::new())
    }
}

/// What one transition of the reference applier does: it refuses a
/// pre-state root other than the one it holds, and otherwise writes the patch
/// as the accumulator does; a failure leaves the held state unchanged.
pub open spec fn reference_transition(
    before: ReferenceStateApplier,
    pre_state_root: Root,
    patch: StatePatch,
    result: Result<StateTransitionOutcome, StateError>,
    after: ReferenceStateApplier,
) -> bool {
    &&& pre_state_root@ != spec_entries_root(before.accumulator_view()) ==> (result matches Err(
        StateError::RootContinuityMismatch(e),
    ) && e.expected == pre_state_root && e.actual@ == spec_entries_root(before.accumulator_view()))
    &&& result is Ok <==> (pre_state_root@ == spec_entries_root(before.accumulator_view())
        && patch.accesses@.len() == patch.new_values@.len() && keys_strictly_increasing(
        patch.accesses@,
    ))
    &&& pre_state_root@ == spec_entries_root(before.accumulator_view()) && patch.accesses@.len()
        != patch.new_values@.len() ==> result == Err::<StateTransitionOutcome, StateError>(
        StateError::Backend(PATCH_SHAPE_CONTEXT),
    )
    &&& pre_state_root@ == spec_entries_root(before.accumulator_view()) && patch.accesses@.len()
        == patch.new_values@.len() && !keys_strictly_increasing(patch.accesses@) ==> (result matches Err(
        StateError::NonCanonicalWitnessOrdering(e),
    ) && first_order_violation(patch.accesses@, e.index) && e.context == ACCESS_ORDER_CONTEXT)
    &&& result is Err ==> after.accumulator_view() == before.accumulator_view()
    &&& result matches Ok(outcome) ==> after.accumulator_view() == spec_apply_writes(
        before.accumulator_view(),
        patch.accesses@,
        value_views(patch.new_values@),
        patch.accesses@.len(),
    ) && outcome.post_state_root@ == spec_entries_root(after.accumulator_view())
}

impl StateTransitionApplier for ReferenceStateApplier {
    open spec fn applies(
        &self,
        pre_state_root: Root,
        patch: StatePatch,
        result: Result<StateTransitionOutcome, StateError>,
        after: &Self,
    ) -> bool {
        reference_transition(*self, pre_state_root, patch, result, *after)
    }

    /// Checks that `pre_state_root` is the held root, then applies the patch.
    /// A failed transition leaves the held state unchanged.
    fn apply_transition(&mut self, pre_state_root: &Root, patch: &StatePatch) -> (result: Result<
        StateTransitionOutcome,
        StateError,
    >)
        ensures
            pre_state_root@ != spec_entries_root(old(self).accumulator_view()) ==> (result matches Err(
                StateError::RootContinuityMismatch(e),
            ) && e.expected == *pre_state_root && e.actual@ == spec_entries_root(
                old(self).accumulator_view(),
            )),
            result is Ok <==> (pre_state_root@ == spec_entries_root(old(self).accumulator_view())
                && patch.accesses@.len() == patch.new_values@.len() && keys_strictly_increasing(
                patch.accesses@,
            )),
            pre_state_root@ == spec_entries_root(old(self).accumulator_view())
                && patch.accesses@.len() != patch.new_values@.len() ==> result == Err::<
                StateTransitionOutcome,
                StateError,
            >(StateError::Backend(PATCH_SHAPE_CONTEXT)),
            pre_state_root@ == spec_entries_root(old(self).accumulator_view())
                && patch.accesses@.len() == patch.new_values@.len() && !keys_strictly_increasing(
                patch.accesses@,
            ) ==> (result matches Err(StateError::NonCanonicalWitnessOrdering(e))
                && first_order_violation(patch.accesses@, e.index) && e.context
                == ACCESS_ORDER_CONTEXT),
            result is Err ==> final(self).accumulator_view() == old(self).accumulator_view(),
            result matches Ok(outcome) ==> final(self).accumulator_view() == spec_apply_writes(
                old(self).accumulator_view(),
                patch.accesses@,
                value_views(patch.new_values@),
                patch.accesses@.len(),
            ) && outcome.post_state_root@ == spec_entries_root(final(self).accumulator_view()),
    {
        let actual_root = self.accumulator.state_root();
        if !roots_equal(&actual_root, pre_state_root) {
            return Err(
                StateError::RootContinuityMismatch(
                    RootContinuityError { expected: *pre_state_root, actual: actual_root },
                ),
            );
        }
        let post_state_root = self.accumulator.apply_transition(patch)?;
        Ok(StateTransitionOutcome { post_state_root })
    }
}

/// The context of a patch whose keys and values do not pair up.
pub const PATCH_SHAPE_CONTEXT: &'static str = "state patch accesses and new values differ in length";

/// The context of a patch whose keys are out of canonical order.
pub const ACCESS_ORDER_CONTEXT: &'static str = "access keys must be strictly increasing in canonical StateKey order";

} // verus!
