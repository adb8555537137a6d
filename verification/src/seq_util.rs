//! Sequence positions given by machine indexes.

use vstd::prelude::*;

verus! {

/// The first `n` items of `s`.
pub open spec fn take_to<T>(s: Seq<T>, n: usize) -> Seq<T> {
    s.take(n as int)
}

/// The items of `s` from position `n` on.
pub open spec fn skip_to<T>(s: Seq<T>, n: usize) -> Seq<T> {
    s.skip(n as int)
}

/// The item of `s` at position `n`.
pub open spec fn item_at<T>(s: Seq<T>, n: usize) -> T {
    s[n as int]
}

/// Different tails after one prefix give different sequences.
pub proof fn lemma_distinct_after_prefix<T>(prefix: Seq<T>, x: Seq<T>, y: Seq<T>)
    requires
        x != y,
    ensures
        prefix + x != prefix + y,
{
    if prefix + x == prefix + y {
        assert((prefix + x).skip(prefix.len() as int) =~= x);
        assert((prefix + y).skip(prefix.len() as int) =~= y);
    }
}

/// Different sequences followed by one tail stay different.
pub proof fn lemma_distinct_before_suffix<T>(x: Seq<T>, y: Seq<T>, suffix: Seq<T>)
    requires
        x != y,
    ensures
        x + suffix != y + suffix,
{
    if x + suffix == y + suffix {
        assert((x + suffix).take(x.len() as int) =~= x);
        assert((y + suffix).take(y.len() as int) =~= y);
    }
}

/// Sequences that hold different items at one position both reach differ.
pub proof fn lemma_distinct_at<T>(x: Seq<T>, y: Seq<T>, i: int)
    requires
        0 <= i < x.len(),
        i < y.len(),
        x[i] != y[i],
    ensures
        x != y,
{
}

} // verus!
