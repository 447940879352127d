use vstd::prelude::*;
use std::collections::VecDeque;

verus! {

/// The last `capacity` items of a history (all of it when shorter).
pub open spec fn last_items<T>(history: Seq<T>, capacity: nat) -> Seq<T> {
    if history.len() <= capacity {
        history
    } else {
        history.skip(history.len() - capacity)
    }
}

/// A sliding window over the most recent items pushed into it, oldest
/// first; pushing into a full window evicts the oldest item.
pub struct SlidingWindow<T> {
    items: VecDeque<T>,
    window_size: usize,
}

impl<T> View for SlidingWindow<T> {
    type V = Seq<T>;

    closed spec fn view(&self) -> Seq<T> {
        self.items@
    }
}

impl<T> SlidingWindow<T> {
    /// The most items the window holds.
    pub closed spec fn capacity(&self) -> nat {
        self.window_size as nat
    }

    /// Internal consistency: at least one slot, never over-full.
    pub closed spec fn wf(&self) -> bool {
        &&& self.window_size >= 1
        &&& self.items@.len() <= self.window_size
    }

    /// An empty window of `window_size` items (at least one).
    pub fn new(window_size: usize) -> (w: Self)
        ensures
            w.wf(),
            w@ == Seq::<T>::empty(),
            w.capacity() == (if window_size >= 1 {
                window_size as nat
            } else {
                1
            }),
    {
        let size = if window_size >= 1 {
            window_size
        } else {
            1
        };
        SlidingWindow { items: VecDeque::new(), window_size: size }
    }

    /// Pushes an item; when the window is full the oldest item is evicted
    /// and returned.
    pub fn push(&mut self, item: T) -> (evicted: Option<T>)
        requires
            old(self).wf(),
        ensures
            final(self).wf(),
            final(self).capacity() == old(self).capacity(),
            old(self)@.len() >= old(self).capacity() ==> {
                &&& evicted == Some(old(self)@[0])
                &&& final(self)@ == old(self)@.drop_first().push(item)
            },
            old(self)@.len() < old(self).capacity() ==> {
                &&& evicted is None
                &&& final(self)@ == old(self)@.push(item)
            },
    {
        let mut evicted: Option<T> = None;
        if self.items.len() >= self.window_size {
            evicted = self.items.pop_front();
            proof {
                assert(old(self).items@.subrange(1, old(self).items@.len() as int)
                    =~= old(self).items@.drop_first());
            }
        }
        self.items.push_back(item);
        evicted
    }

    /// Number of items in the window.
    pub fn len(&self) -> (n: usize)
        ensures
            n == self@.len(),
    {
        self.items.len()
    }

    /// Whether the window holds no item.
    pub fn is_empty(&self) -> (b: bool)
        ensures
            b == (self@.len() == 0),
    {
        self.items.len() == 0
    }

    /// The most items the window holds.
    pub fn window_size(&self) -> (n: usize)
        ensures
            n == self.capacity(),
    {
        self.window_size
    }

    /// The `i`-th item, oldest first.
    pub fn get(&self, i: usize) -> (r: &T)
        requires
            i < self@.len(),
        ensures
            *r == self@[i as int],
    {
        &self.items[i]
    }
}

/// A window that holds the last `capacity` items of a history still does
/// after one more push.
pub proof fn lemma_window_tracks_history<T>(before: Seq<T>, history: Seq<T>, item: T, capacity: nat, after: Seq<T>)
    requires
        capacity >= 1,
        before == last_items(history, capacity),
        before.len() >= capacity ==> after == before.drop_first().push(item),
        before.len() < capacity ==> after == before.push(item),
    ensures
        after == last_items(history.push(item), capacity),
{
    let h2 = history.push(item);
    if history.len() < capacity {
        assert(after =~= last_items(h2, capacity));
    } else {
        assert(after =~= h2.skip(h2.len() - capacity));
    }
}

} // verus!
