use vstd::prelude::*;

use crate::model::{advanced, lemma_advanced, lemma_drain_pairs, pair_of, step, yielded};

verus! {

/// An iterator that splits a slice into its head and tail, then the tail
/// into *its* head and tail, and so on.
///
/// Its items are `(&'a T, &'a [T])`, both borrowed from the original slice.
///
/// To construct one, use [`HeadTailIterator::head_tail_pairs()`].
#[derive(Clone, Debug, PartialEq, Eq)]
pub struct HeadTailIter<'a, T> {
    /// The elements not yet consumed.
    pub tail: &'a [T],
}

impl<'a, T> View for HeadTailIter<'a, T> {
    type V = Seq<T>;

    /// The elements not yet consumed.
    open spec fn view(&self) -> Seq<T> {
        self.tail@
    }
}

impl<'a, T> HeadTailIter<'a, T> {
    /// Yields the first remaining element with the elements after it, which
    /// then become the remaining ones; yields nothing once exhausted.
    pub fn next(&mut self) -> (r: Option<(&'a T, &'a [T])>)
        ensures
            pair_of(r) == step(old(self)@).0,
            final(self)@ == step(old(self)@).1,
    {
        if self.tail.len() == 0 {
            return None;
        }
        let head = &self.tail[0];
        let (_, tail) = self.tail.split_at(1);
        self.tail = tail;
        Some((head, tail))
    }

    /// The number of pairs still to come, as both bounds of a size hint.
    pub fn size_hint(&self) -> (r: (usize, Option<usize>))
        ensures
            r.0 == self@.len(),
            r.1 == Some(r.0),
    {
        let n = self.len();
        (n, Some(n))
    }

    /// The number of pairs that draining the iterator would yield, read off
    /// without iterating.
    pub fn count(self) -> (r: usize)
        ensures
            r == self@.len(),
            forall|k: nat| k < r ==> (#[trigger] yielded(self@, k)) is Some,
            yielded(self@, r as nat) is None,
    {
        proof {
            lemma_drain_pairs(self@);
        }
        self.len()
    }

    /// The last pair that draining the iterator would yield, found without
    /// visiting the others: the last element with an empty tail.
    pub fn last(self) -> (r: Option<(&'a T, &'a [T])>)
        ensures
            self@.len() == 0 ==> r is None,
            self@.len() > 0 ==> pair_of(r) == Some((self@.last(), Seq::<T>::empty())),
            self@.len() > 0 ==> pair_of(r) == yielded(self@, (self@.len() - 1) as nat),
    {
        proof {
            lemma_drain_pairs(self@);
        }
        let n = self.tail.len();
        if n == 0 {
            return None;
        }
        let (_, empty) = self.tail.split_at(n);
        proof {
            assert(self@.subrange(n as int, n as int) =~= Seq::<T>::empty());
        }
        Some((&self.tail[n - 1], empty))
    }

    /// Skips `n` pairs and yields the one after them, as `n + 1` calls of
    /// [`next`](HeadTailIter::next) would; skipping to or past the end
    /// exhausts the iterator and yields nothing.
    pub fn nth(&mut self, n: usize) -> (r: Option<(&'a T, &'a [T])>)
        ensures
            n < old(self)@.len() ==> pair_of(r) == Some(
                (old(self)@[n as int], old(self)@.subrange(n + 1, old(self)@.len() as int)),
            ),
            n < old(self)@.len() ==> final(self)@ == old(self)@.subrange(
                n + 1,
                old(self)@.len() as int,
            ),
            n >= old(self)@.len() ==> r is None && final(self)@.len() == 0,
            pair_of(r) == yielded(old(self)@, n as nat),
            final(self)@ == advanced(old(self)@, (n + 1) as nat),
    {
        proof {
            lemma_drain_pairs(self@);
            lemma_advanced(self@, n as nat);
            lemma_advanced(self@, (n + 1) as nat);
        }
        let len = self.tail.len();
        if n > len {
            let (_, empty) = self.tail.split_at(len);
            self.tail = empty;
            None
        } else {
            let (_, rest) = self.tail.split_at(n);
            self.tail = rest;
            self.next()
        }
    }

    /// The number of pairs still to come.
    pub fn len(&self) -> (r: usize)
        ensures
            r == self@.len(),
    {
        self.tail.len()
    }
}

/// A trait that allows you to get a [`HeadTailIter`] by calling
/// [`.head_tail_pairs()`](HeadTailIterator::head_tail_pairs).
pub trait HeadTailIterator {
    /// The type parameter for the returned [`HeadTailIter`].
    type Item;

    /// The iterator that [`head_tail_pairs`](HeadTailIterator::head_tail_pairs)
    /// returns: one over all elements of `self`, none consumed yet.
    spec fn spec_head_tail_pairs(&self) -> HeadTailIter<'_, Self::Item>;

    /// Creates an iterator that yields head & tail of a given slice, then
    /// head & tail of the tail from the previous step, and so on, until there
    /// are no more elements left.
    ///
    /// At the last step the head is the last element of the initial slice
    /// and the tail is an empty slice.
    #[must_use]
    fn head_tail_pairs(&self) -> (r: HeadTailIter<'_, Self::Item>)
        ensures
            r == self.spec_head_tail_pairs(),
    ;
}

impl<T> HeadTailIterator for [T] {
    type Item = T;

    open spec fn spec_head_tail_pairs(&self) -> HeadTailIter<'_, T> {
        HeadTailIter { tail: self }
    }

    fn head_tail_pairs(&self) -> (r: HeadTailIter<'_, T>) {
        HeadTailIter { tail: self }
    }
}

impl<'a, T> From<&'a T> for HeadTailIter<'a, <T as HeadTailIterator>::Item> where T: HeadTailIterator + ?Sized {
    fn from(value: &'a T) -> (r: Self) {
        value.head_tail_pairs()
    }
}

impl<'a, T> vstd::std_specs::convert::FromSpecImpl<&'a T> for HeadTailIter<'a, <T as HeadTailIterator>::Item> where T: HeadTailIterator + ?Sized {
    open spec fn obeys_from_spec() -> bool {
        true
    }

    open spec fn from_spec(v: &'a T) -> Self {
        v.spec_head_tail_pairs()
    }
}

} // verus!
