//! A slot in which the newest item waits.

use vstd::prelude::*;

verus! {

/// A slot between two threads: an item waits in it until it is taken up, and a newer one takes its
/// place.
#[derive(Debug)]
pub struct LatestSlot<T> {
    pub waiting: Option<T>,
}

/// What waits in a slot after an item was put into it: that item, whatever waited before.
pub open spec fn put_into<T>(waiting: Option<T>, item: T) -> Option<T> {
    Some(item)
}

/// What waits in a slot after items were put into it one by one, and none was taken up.
pub open spec fn put_all<T>(waiting: Option<T>, items: Seq<T>) -> Option<T>
    decreases items.len(),
{
    if items.len() == 0 {
        waiting
    } else {
        put_into(put_all(waiting, items.drop_last()), items.last())
    }
}

impl<T> LatestSlot<T> {
    /// An empty slot.
    pub fn new() -> (r: LatestSlot<T>)
        ensures
            r.waiting == None::<T>,
    {
        LatestSlot { waiting: None }
    }

    /// Puts an item into the slot, and hands back the one that it displaces.
    pub fn put(&mut self, item: T) -> (r: Option<T>)
        ensures
            final(self).waiting == put_into(old(self).waiting, item),
            r == old(self).waiting,
    {
        let displaced = self.waiting.take();
        self.waiting = Some(item);
        displaced
    }

    /// Takes up the item that waits, if there is one.
    pub fn take(&mut self) -> (r: Option<T>)
        ensures
            final(self).waiting == None::<T>,
            r == old(self).waiting,
    {
        self.waiting.take()
    }
}

/// Of several items in a row the newest waits, and all the others are gone.
pub proof fn newest_item_waits<T>(waiting: Option<T>, items: Seq<T>)
    requires
        items.len() > 0,
    ensures
        put_all(waiting, items) == Some(items.last()),
{
}

/// An item that is put into a slot waits in it, whatever waited before.
pub proof fn item_put_in_waits<T>(waiting: Option<T>, item: T)
    ensures
        put_into(waiting, item) == Some(item),
{
}

/// To put an item in hands back the one that waited, and to take one up leaves the slot empty.
pub proof fn slot_holds_one_item<T>(
    slot: &mut LatestSlot<T>,
    item: T,
    displaced: Option<T>,
    other: &mut LatestSlot<T>,
    taken: Option<T>,
)
    requires
        call_ensures(LatestSlot::<T>::put, (slot, item), displaced),
        call_ensures(LatestSlot::<T>::take, (other,), taken),
    ensures
        final(slot).waiting == Some(item),
        displaced == old(slot).waiting,
        taken == old(other).waiting,
        final(other).waiting is None,
{
}

} // verus!
