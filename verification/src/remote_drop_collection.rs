//! A collection whose items are dropped from elsewhere: inserting an item
//! gives a key, and whoever holds the key takes the item out again later.
//! A subsystem keeps its running children here; a child's key is handed to
//! its alive guard, which removes the child once it has stopped.
use vstd::prelude::*;

verus! {

/// Items stored under keys; a freed key is reused by a later insertion.
pub struct RemotelyDroppableItems<T> {
    items: Vec<Option<T>>,
}

impl<T> View for RemotelyDroppableItems<T> {
    type V = Map<usize, T>;

    closed spec fn view(&self) -> Map<usize, T> {
        Map::new(
            |k: usize| k < self.items@.len() && self.items@[k as int] is Some,
            |k: usize| self.items@[k as int]->Some_0,
        )
    }
}

impl<T> RemotelyDroppableItems<T> {
    /// An empty collection.
    pub fn new() -> (items: Self)
        ensures
            items@ == Map::<usize, T>::empty(),
    {
        RemotelyDroppableItems { items: Vec::new() }
    }

    /// Stores `item` under the smallest key that holds nothing, and returns the key.
    pub fn insert(&mut self, item: T) -> (key: usize)
        ensures
            !old(self)@.contains_key(key),
            forall|k: usize| k < key ==> old(self)@.contains_key(k),
            final(self)@ == old(self)@.insert(key, item),
    {
        let len: usize = self.items.len();
        let mut i: usize = 0;
        while i < len
            invariant
                len == self.items.len(),
                self.items@ == old(self).items@,
                forall|j: int| 0 <= j < i ==> #[trigger] self.items@[j] is Some,
            decreases len - i,
        {
            if self.items[i].is_none() {
                self.items.set(i, Some(item));
                return i;
            }
            i = i + 1;
        }
        self.items.push(Some(item));
        len
    }

    /// Takes the item stored under `key` out, if there is one.
    pub fn take(&mut self, key: usize) -> (item: Option<T>)
        ensures
            item == if old(self)@.contains_key(key) {
                Some(old(self)@[key])
            } else {
                None::<T>
            },
            final(self)@ == old(self)@.remove(key),
    {
        if key >= self.items.len() {
            return None;
        }
        let mut slot: Option<T> = None;
        std::mem::swap(&mut slot, &mut self.items[key]);
        slot
    }

    /// Whether an item is stored under `key`.
    pub fn contains_key(&self, key: usize) -> (found: bool)
        ensures
            found == self@.contains_key(key),
    {
        key < self.items.len() && self.items[key].is_some()
    }

    /// Whether no item is stored.
    pub fn is_empty(&self) -> (empty: bool)
        ensures
            empty == (self@ == Map::<usize, T>::empty()),
    {
        let len: usize = self.items.len();
        let mut i: usize = 0;
        while i < len
            invariant
                len == self.items.len(),
                forall|j: int| 0 <= j < i ==> #[trigger] self.items@[j] is None,
            decreases len - i,
        {
            if self.items[i].is_some() {
                assert(self@.contains_key(i));
                return false;
            }
            i = i + 1;
        }
        assert(self@ =~= Map::<usize, T>::empty());
        true
    }
}

/// An item inserted and then taken out by its key comes back, and the
/// collection is as it was before.
pub proof fn law_insert_then_take<T>(items: Map<usize, T>, key: usize, item: T)
    requires
        !items.contains_key(key),
    ensures
        items.insert(key, item).contains_key(key),
        items.insert(key, item)[key] == item,
        items.insert(key, item).remove(key) == items,
{
}

} // verus!
