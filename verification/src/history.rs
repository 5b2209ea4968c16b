//! A bounded history that forgets its oldest entry first.

use vstd::prelude::*;
use std::collections::VecDeque;

verus! {

/// A history after one more entry: the entry is added at the end, and
/// where the history was full the oldest entry leaves first.
pub open spec fn appended<T>(s: Seq<T>, item: T, cap: nat) -> Seq<T> {
    if s.len() >= cap {
        s.drop_first().push(item)
    } else {
        s.push(item)
    }
}

/// A history after a run of entries, added one after the other.
pub open spec fn appended_all<T>(s: Seq<T>, items: Seq<T>, cap: nat) -> Seq<T>
    decreases items.len(),
{
    if items.len() == 0 {
        s
    } else {
        appended(appended_all(s, items.drop_last(), cap), items.last(), cap)
    }
}

/// The last `n` entries of `s`, or all of `s` where it holds fewer.
pub open spec fn most_recent<T>(s: Seq<T>, n: nat) -> Seq<T> {
    if s.len() <= n {
        s
    } else {
        s.subrange(s.len() - n, s.len() as int)
    }
}

/// One more entry leaves the most recent `cap` of everything seen so far.
pub proof fn lemma_appended_most_recent<T>(seen: Seq<T>, item: T, cap: nat)
    requires
        cap > 0,
    ensures
        appended(most_recent(seen, cap), item, cap) == most_recent(seen.push(item), cap),
{
    assert(appended(most_recent(seen, cap), item, cap) =~= most_recent(seen.push(item), cap));
}

/// However many entries are added to a history within its capacity, it
/// holds the most recent `cap` of all entries, oldest first: never more
/// than `cap`, and exactly `cap` once that many were seen.
pub proof fn lemma_history_keeps_most_recent<T>(s: Seq<T>, items: Seq<T>, cap: nat)
    requires
        cap > 0,
        s.len() <= cap,
    ensures
        appended_all(s, items, cap) == most_recent(s + items, cap),
        appended_all(s, items, cap).len() <= cap,
        s.len() + items.len() >= cap ==> appended_all(s, items, cap).len() == cap,
    decreases items.len(),
{
    if items.len() == 0 {
        assert(s + items =~= s);
    } else {
        lemma_history_keeps_most_recent(s, items.drop_last(), cap);
        lemma_appended_most_recent(s + items.drop_last(), items.last(), cap);
        assert((s + items.drop_last()).push(items.last()) =~= s + items);
    }
}

/// A bounded, ordered history.
pub struct RollingHistory<T> {
    items: VecDeque<T>,
    capacity: usize,
}

impl<T> View for RollingHistory<T> {
    type V = Seq<T>;

    closed spec fn view(&self) -> Seq<T> {
        self.items@
    }
}

impl<T> RollingHistory<T> {
    /// The number of entries the history keeps.
    pub closed spec fn cap(&self) -> nat {
        self.capacity as nat
    }

    /// The history never holds more than its capacity.
    pub closed spec fn wf(&self) -> bool {
        0 < self.capacity && self.items@.len() <= self.capacity
    }

    /// What well-formedness means for the view.
    pub proof fn lemma_wf(&self)
        requires
            self.wf(),
        ensures
            0 < self.cap(),
            self@.len() <= self.cap(),
            self.cap() <= usize::MAX,
    {
    }

    /// An empty history that keeps `capacity` entries.
    pub fn new(capacity: usize) -> (h: Self)
        requires
            capacity > 0,
        ensures
            h.wf(),
            h.cap() == capacity,
            h@ == Seq::<T>::empty(),
    {
        Self { items: VecDeque::with_capacity(capacity), capacity }
    }

    /// The number of entries held.
    pub fn len(&self) -> (n: usize)
        ensures
            n == self@.len(),
    {
        self.items.len()
    }

    /// Whether no entry is held.
    pub fn is_empty(&self) -> (b: bool)
        ensures
            b == (self@.len() == 0),
    {
        self.items.len() == 0
    }

    /// The entry at position `i`, counted from the oldest.
    pub fn get(&self, i: usize) -> (item: &T)
        requires
            i < self@.len(),
        ensures
            *item == self@[i as int],
    {
        &self.items[i]
    }

    /// The newest entry.
    pub fn back(&self) -> (item: Option<&T>)
        ensures
            self@.len() == 0 ==> item is None,
            self@.len() > 0 ==> item == Some(&self@.last()),
    {
        let n = self.items.len();
        if n == 0 {
            None
        } else {
            Some(&self.items[n - 1])
        }
    }

    /// Adds an entry at the end; a full history drops its oldest first.
    pub fn push(&mut self, item: T)
        requires
            old(self).wf(),
        ensures
            final(self).wf(),
            final(self).cap() == old(self).cap(),
            final(self)@ == appended(old(self)@, item, old(self).cap()),
    {
        if self.items.len() >= self.capacity {
            let _ = self.items.pop_front();
        }
        self.items.push_back(item);
    }
}

} // verus!
