//! The world container: scene objects owned under integer ids that are
//! handed out in increasing order.

use vstd::prelude::*;
use std::collections::BTreeMap;

verus! {

/// Scene objects keyed by the id each got when it was added. Iterating the
/// map walks them in the order in which they were added.
pub struct World<T> {
    objects: BTreeMap<i64, T>,
    counter: i64,
}

impl<T> World<T> {
    /// The objects by id.
    pub closed spec fn objects_spec(&self) -> Map<i64, T> {
        self.objects@
    }

    /// The id that the next added object gets.
    pub closed spec fn next_id_spec(&self) -> int {
        self.counter as int
    }

    /// Every id in use lies below the next one and is not negative.
    pub closed spec fn wf(&self) -> bool {
        &&& self.counter >= 0
        &&& forall|k: i64| #[trigger] self.objects@.contains_key(k) ==> 0 <= k < self.counter
    }

    /// An empty world.
    pub fn new() -> (w: World<T>)
        ensures
            w.wf(),
            w.objects_spec() == Map::<i64, T>::empty(),
            w.next_id_spec() == 0,
    {
        World { objects: BTreeMap::new(), counter: 0 }
    }

    /// The id that the next added object gets.
    pub fn next_id(&self) -> (r: i64)
        ensures
            r == self.next_id_spec(),
    {
        self.counter
    }

    /// Adds `obj` under the next id.
    pub fn add_world_object(&mut self, obj: T)
        requires
            old(self).next_id_spec() < i64::MAX,
        ensures
            old(self).wf() ==> final(self).wf(),
            old(self).wf() ==> !old(self).objects_spec().contains_key(
                old(self).next_id_spec() as i64,
            ),
            final(self).objects_spec() == old(self).objects_spec().insert(
                old(self).next_id_spec() as i64,
                obj,
            ),
            final(self).next_id_spec() == old(self).next_id_spec() + 1,
    {
        self.counter = self.counter + 1;
        self.objects.insert(self.counter - 1, obj);
    }
}

/// Read access to the objects by id, for walking them in id order.
impl<T> core::ops::Deref for World<T> {
    type Target = BTreeMap<i64, T>;

    fn deref(&self) -> (r: &BTreeMap<i64, T>)
        ensures
            r@ == self.objects_spec(),
    {
        &self.objects
    }
}

/// Write access to the objects by id, for updating them in place.
impl<T> core::ops::DerefMut for World<T> {
    fn deref_mut(&mut self) -> (r: &mut BTreeMap<i64, T>)
        ensures
            r@ == old(self).objects_spec(),
            final(self).objects_spec() == final(r)@,
            final(self).next_id_spec() == old(self).next_id_spec(),
    {
        &mut self.objects
    }
}

} // verus!
