//! The canonical order of state keys: lexicographic order of their encodings.

use core::cmp::Ordering;
use vstd::prelude::*;

use crate::state_key::{
    encode_state_key, lemma_suffix_step, lemma_suffix_zero, spec_encode_state_key, suffix_from,
    StateKey,
};

verus! {

/// Lexicographic order of two byte strings: the first differing byte decides,
/// and a proper prefix comes first.
pub open spec fn lexicographic_order(left: Seq<u8>, right: Seq<u8>) -> Ordering
    decreases left.len(),
{
    if left.len() == 0 {
        if right.len() == 0 {
            Ordering::Equal
        } else {
            Ordering::Less
        }
    } else if right.len() == 0 {
        Ordering::Greater
    } else if left[0] < right[0] {
        Ordering::Less
    } else if left[0] > right[0] {
        Ordering::Greater
    } else {
        lexicographic_order(left.drop_first(), right.drop_first())
    }
}

/// The canonical order of two state keys.
pub open spec fn state_key_order(left: StateKey, right: StateKey) -> Ordering {
    lexicographic_order(spec_encode_state_key(left), spec_encode_state_key(right))
}

/// Compares two byte strings lexicographically.
pub fn compare_bytes(left: &[u8], right: &[u8]) -> (order: Ordering)
    ensures
        order == lexicographic_order(left@, right@),
{
    let mut i: usize = 0;
    proof {
        lemma_suffix_zero(left@);
        lemma_suffix_zero(right@);
    }
    while i < left.len() && i < right.len()
        invariant
            0 <= i <= left@.len(),
            i <= right@.len(),
            lexicographic_order(left@, right@) == lexicographic_order(
                suffix_from(left@, i),
                suffix_from(right@, i),
            ),
        decreases left@.len() - i,
    {
        if left[i] < right[i] {
            return Ordering::Less;
        }
        if left[i] > right[i] {
            return Ordering::Greater;
        }
        proof {
            lemma_suffix_step(left@, i);
            lemma_suffix_step(right@, i);
        }
        i += 1;
    }
    if i < right.len() {
        Ordering::Less
    } else if i < left.len() {
        Ordering::Greater
    } else {
        Ordering::Equal
    }
}

/// Compares two state keys by their canonical encodings.
pub fn compare_state_keys(left: &StateKey, right: &StateKey) -> (order: Ordering)
    ensures
        order == state_key_order(*left, *right),
{
    let left_bytes = encode_state_key(left);
    let right_bytes = encode_state_key(right);
    compare_bytes(left_bytes.as_slice(), right_bytes.as_slice())
}

/// Lexicographic order is antisymmetric, and it calls two byte strings
/// equal exactly when they are the same string.
pub proof fn lemma_lexicographic_antisymmetric(left: Seq<u8>, right: Seq<u8>)
    ensures
        (lexicographic_order(left, right) == Ordering::Less) == (lexicographic_order(right, left)
            == Ordering::Greater),
        (lexicographic_order(left, right) == Ordering::Equal) == (left == right),
    decreases left.len(),
{
    if left.len() > 0 && right.len() > 0 && left[0] == right[0] {
        lemma_lexicographic_antisymmetric(left.drop_first(), right.drop_first());
        if left.drop_first() == right.drop_first() {
            assert(left =~= seq![left[0]] + left.drop_first());
            assert(right =~= seq![right[0]] + right.drop_first());
        }
    }
    if left.len() == 0 && right.len() == 0 {
        assert(left =~= right);
    }
}

/// Lexicographic order is transitive.
pub proof fn lemma_lexicographic_transitive(a: Seq<u8>, b: Seq<u8>, c: Seq<u8>)
    requires
        lexicographic_order(a, b) == Ordering::Less,
        lexicographic_order(b, c) == Ordering::Less,
    ensures
        lexicographic_order(a, c) == Ordering::Less,
    decreases a.len(),
{
    if a.len() > 0 && b.len() > 0 && c.len() > 0 && a[0] == b[0] && b[0] == c[0] {
        lemma_lexicographic_transitive(a.drop_first(), b.drop_first(), c.drop_first());
    }
}

/// Distinct state keys have distinct canonical encodings, so the canonical
/// order never calls two different keys equal.
pub proof fn lemma_encoding_injective(left: StateKey, right: StateKey)
    requires
        spec_encode_state_key(left) == spec_encode_state_key(right),
    ensures
        left == right,
{
    let e = spec_encode_state_key(left);
    assert(e[0] == spec_encode_state_key(right)[0]);
    match left {
        StateKey::AccountHeader(a) => {
            if let StateKey::AccountHeader(b) = right {
                assert(a =~= b) by {
                    assert forall|i: int| 0 <= i < 20 implies a[i] == b[i] by {
                        assert(e[13 + i] == a@[i]);
                        assert(spec_encode_state_key(right)[13 + i] == b@[i]);
                    }
                }
            }
        },
        StateKey::StorageSlot { address: a, slot: s } => {
            if let StateKey::StorageSlot { address: b, slot: t } = right {
                assert(a =~= b) by {
                    assert forall|i: int| 0 <= i < 20 implies a[i] == b[i] by {
                        assert(e[13 + i] == a@[i]);
                        assert(spec_encode_state_key(right)[13 + i] == b@[i]);
                    }
                }
                assert(s =~= t) by {
                    assert forall|i: int| 0 <= i < 32 implies s[i] == t[i] by {
                        assert(e[33 + i] == s@[i]);
                        assert(spec_encode_state_key(right)[33 + i] == t@[i]);
                    }
                }
            }
        },
        StateKey::CodeChunk { address: a, chunk_index: x } => {
            if let StateKey::CodeChunk { address: b, chunk_index: y } = right {
                assert(a =~= b) by {
                    assert forall|i: int| 0 <= i < 20 implies a[i] == b[i] by {
                        assert(e[13 + i] == a@[i]);
                        assert(spec_encode_state_key(right)[13 + i] == b@[i]);
                    }
                }
                assert(e[33] == spec_encode_state_key(right)[33]);
                assert(e[34] == spec_encode_state_key(right)[34]);
                assert(e[35] == spec_encode_state_key(right)[35]);
                assert(e[36] == spec_encode_state_key(right)[36]);
                lemma_u32_be_injective(x, y);
            }
        },
        StateKey::RawTreeKey(a) => {
            if let StateKey::RawTreeKey(b) = right {
                assert(a =~= b) by {
                    assert forall|i: int| 0 <= i < 32 implies a[i] == b[i] by {
                        assert(e[1 + i] == a@[i]);
                        assert(spec_encode_state_key(right)[1 + i] == b@[i]);
                    }
                }
            }
        },
        StateKey::Stem(a) => {
            if let StateKey::Stem(b) = right {
                assert(a =~= b) by {
                    assert forall|i: int| 0 <= i < 31 implies a[i] == b[i] by {
                        assert(e[1 + i] == a@[i]);
                        assert(spec_encode_state_key(right)[1 + i] == b@[i]);
                    }
                }
            }
        },
    }
}

proof fn lemma_u32_be_injective(x: u32, y: u32)
    requires
        (x >> 24u32) as u8 == (y >> 24u32) as u8,
        (x >> 16u32) as u8 == (y >> 16u32) as u8,
        (x >> 8u32) as u8 == (y >> 8u32) as u8,
        x as u8 == y as u8,
    ensures
        x == y,
{
    assert(x == y) by (bit_vector)
        requires
            (x >> 24u32) as u8 == (y >> 24u32) as u8,
            (x >> 16u32) as u8 == (y >> 16u32) as u8,
            (x >> 8u32) as u8 == (y >> 8u32) as u8,
            x as u8 == y as u8,
    ;
}

/// The canonical order of state keys is a strict total order: exactly one of
/// less, equal, greater holds; it is antisymmetric and transitive; and it
/// calls two keys equal only when they are the same key.
pub proof fn lemma_state_key_order_total(a: StateKey, b: StateKey, c: StateKey)
    ensures
        (state_key_order(a, b) == Ordering::Less) == (state_key_order(b, a) == Ordering::Greater),
        (state_key_order(a, b) == Ordering::Equal) == (a == b),
        state_key_order(a, b) == Ordering::Less && state_key_order(b, c) == Ordering::Less
            ==> state_key_order(a, c) == Ordering::Less,
{
    lemma_lexicographic_antisymmetric(spec_encode_state_key(a), spec_encode_state_key(b));
    if spec_encode_state_key(a) == spec_encode_state_key(b) {
        lemma_encoding_injective(a, b);
    }
    if state_key_order(a, b) == Ordering::Less && state_key_order(b, c) == Ordering::Less {
        lemma_lexicographic_transitive(
            spec_encode_state_key(a),
            spec_encode_state_key(b),
            spec_encode_state_key(c),
        );
    }
}

} // verus!
