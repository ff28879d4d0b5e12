//! The mathematical model of head–tail iteration over a sequence, and the
//! laws that repeated advancement obeys.
use vstd::prelude::*;

verus! {

/// What one advancement does to the remaining elements `rest`: the pair it
/// yields, if any, and the elements that remain after it.
///
/// A non-empty `rest` yields its first element with the rest of it, which
/// then remains; an empty one yields nothing and stays empty.
pub open spec fn step<T>(rest: Seq<T>) -> (Option<(T, Seq<T>)>, Seq<T>) {
    if rest.len() == 0 {
        (None, rest)
    } else {
        (Some((rest[0], rest.drop_first())), rest.drop_first())
    }
}

/// The elements that remain of `rest` after `m` advancements.
pub open spec fn advanced<T>(rest: Seq<T>, m: nat) -> Seq<T>
    decreases m,
{
    if m == 0 {
        rest
    } else {
        step(advanced(rest, (m - 1) as nat)).1
    }
}

/// What the advancement that follows `m` earlier ones yields from `rest`.
pub open spec fn yielded<T>(rest: Seq<T>, m: nat) -> Option<(T, Seq<T>)> {
    step(advanced(rest, m)).0
}

/// The mathematical value of a yielded pair: the head element and the
/// elements of the tail.
pub open spec fn pair_of<'a, T>(r: Option<(&'a T, &'a [T])>) -> Option<(T, Seq<T>)> {
    match r {
        Some((h, t)) => Some((*h, t@)),
        None => None,
    }
}

/// After `m` advancements the elements from index `m` on remain, or none
/// once `m` reaches the length.
pub proof fn lemma_advanced<T>(s: Seq<T>, m: nat)
    ensures
        m <= s.len() ==> advanced(s, m) == s.subrange(m as int, s.len() as int),
        m >= s.len() ==> advanced(s, m) == Seq::<T>::empty(),
    decreases m,
{
    if m > 0 {
        lemma_advanced(s, (m - 1) as nat);
        if m <= s.len() {
            assert(s.subrange(m - 1, s.len() as int).drop_first() =~= s.subrange(
                m as int,
                s.len() as int,
            ));
        }
    } else if s.len() == 0 {
        assert(s =~= Seq::<T>::empty());
    } else {
        assert(s.subrange(0, s.len() as int) =~= s);
    }
}

/// Draining a sequence of length `N` by repeated advancement yields exactly
/// `N` pairs: the `k`-th has head `s[k]` and the elements after it as its
/// tail, and the advancement after the last pair yields nothing.
pub proof fn lemma_drain_pairs<T>(s: Seq<T>)
    ensures
        forall|k: nat|
            k < s.len() ==> #[trigger] yielded(s, k) == Some(
                (s[k as int], s.subrange((k + 1) as int, s.len() as int)),
            ),
        yielded(s, s.len()) is None,
{
    assert forall|k: nat| k < s.len() implies #[trigger] yielded(s, k) == Some(
        (s[k as int], s.subrange((k + 1) as int, s.len() as int)),
    ) by {
        lemma_advanced(s, k);
        assert(s.subrange(k as int, s.len() as int).drop_first() =~= s.subrange(
            (k + 1) as int,
            s.len() as int,
        ));
    }
    lemma_advanced(s, s.len());
}

/// The number of elements that remain is `N` before any advancement,
/// `N - m` after `m <= N` of them, and zero once exhausted.
pub proof fn lemma_remaining_count<T>(s: Seq<T>, m: nat)
    ensures
        advanced(s, 0).len() == s.len(),
        m <= s.len() ==> advanced(s, m).len() == s.len() - m,
        m >= s.len() ==> advanced(s, m).len() == 0,
{
    lemma_advanced(s, m);
}

/// Skipping no pairs is one plain advancement: it yields the same pair and
/// leaves the same elements.
pub proof fn lemma_skip_zero<T>(s: Seq<T>)
    ensures
        yielded(s, 0) == step(s).0,
        advanced(s, 1) == step(s).1,
{
}

/// Once an advancement yields nothing, every later one yields nothing too,
/// and nothing remains.
pub proof fn lemma_fused<T>(s: Seq<T>, m: nat, j: nat)
    requires
        yielded(s, m) is None,
        m <= j,
    ensures
        yielded(s, j) is None,
        advanced(s, j).len() == 0,
{
    lemma_advanced(s, m);
    lemma_advanced(s, j);
    lemma_advanced(s, j + 1);
}

} // verus!
