use vstd::prelude::*;

use std::collections::BTreeMap;

use crate::components::WorldItemId;
use crate::item::ItemStack;

verus! {

broadcast use vstd::std_specs::btree::group_btree_axioms, vstd::laws_cmp::group_laws_cmp;

/// A dropped item as the world item ledger records it; `P` is the position
/// type of the world it lies in.
#[derive(Debug, Clone)]
pub struct WorldItemEntry<P> {
    pub id: WorldItemId,
    pub position: P,
    pub stack: ItemStack,
}

/// The ledger of dropped items that clients are told about: entries by id,
/// the next id to hand out, and whether anything changed since the ledger
/// was last sent.
#[derive(Debug)]
pub struct WorldItemBook<P> {
    pub next_id: u32,
    pub entries: BTreeMap<u32, WorldItemEntry<P>>,
    pub dirty: bool,
}

impl<P> Default for WorldItemBook<P> {
    fn default() -> (r: Self)
        ensures
            r.next_id == 0,
            r.entries@ == Map::<u32, WorldItemEntry<P>>::empty(),
            !r.dirty,
    {
        WorldItemBook::new()
    }
}

impl<P> WorldItemBook<P> {
    /// An empty ledger handing out ids from 0.
    pub fn new() -> (r: Self)
        ensures
            r.next_id == 0,
            r.entries@ == Map::<u32, WorldItemEntry<P>>::empty(),
            !r.dirty,
    {
        WorldItemBook { next_id: 0, entries: BTreeMap::new(), dirty: false }
    }

    /// Every recorded id is below the next id to hand out.
    pub open spec fn ids_below_next(&self) -> bool {
        forall|k: u32| #[trigger] self.entries@.contains_key(k) ==> k < self.next_id
    }

    /// Hands out the next id.
    pub fn allocate_id(&mut self) -> (r: WorldItemId)
        requires
            old(self).next_id < u32::MAX,
        ensures
            r.0 == old(self).next_id,
            final(self).next_id == old(self).next_id + 1,
            final(self).entries@ == old(self).entries@,
            final(self).dirty == old(self).dirty,
    {
        let id = WorldItemId(self.next_id);
        self.next_id = self.next_id + 1;
        id
    }

    /// Records `entry` under its id, replacing any entry with that id.
    pub fn insert(&mut self, entry: WorldItemEntry<P>)
        ensures
            final(self).entries@ == old(self).entries@.insert(entry.id.0, entry),
            final(self).next_id == old(self).next_id,
            final(self).dirty,
    {
        let key = entry.id.0;
        self.entries.insert(key, entry);
        self.dirty = true;
    }

    /// Forgets the entry with id `id`; the ledger is dirty afterwards when
    /// there was one.
    pub fn remove(&mut self, id: WorldItemId)
        ensures
            final(self).entries@ == old(self).entries@.remove(id.0),
            final(self).next_id == old(self).next_id,
            final(self).dirty == (old(self).dirty || old(self).entries@.contains_key(id.0)),
    {
        if self.entries.remove(&id.0).is_some() {
            self.dirty = true;
        }
    }

    /// Moves the entry with id `id`; an unknown id changes nothing.
    pub fn update_position(&mut self, id: WorldItemId, position: P)
        ensures
            final(self).next_id == old(self).next_id,
            old(self).entries@.contains_key(id.0) ==> {
                let e = old(self).entries@[id.0];
                &&& final(self).entries@ == old(self).entries@.insert(
                    id.0,
                    WorldItemEntry { id: e.id, position, stack: e.stack },
                )
                &&& final(self).dirty
            },
            !old(self).entries@.contains_key(id.0) ==> final(self).entries@ == old(self).entries@
                && final(self).dirty == old(self).dirty,
    {
        if let Some(entry) = self.entries.remove(&id.0) {
            let updated = WorldItemEntry { id: entry.id, position, stack: entry.stack };
            self.entries.insert(id.0, updated);
            self.dirty = true;
            proof {
                assert(self.entries@ =~= old(self).entries@.insert(id.0, updated));
            }
        }
    }

    /// Replaces the stack of the entry with id `id`; an unknown id changes
    /// nothing.
    pub fn update_stack(&mut self, id: WorldItemId, stack: ItemStack)
        ensures
            final(self).next_id == old(self).next_id,
            old(self).entries@.contains_key(id.0) ==> {
                let e = old(self).entries@[id.0];
                &&& final(self).entries@ == old(self).entries@.insert(
                    id.0,
                    WorldItemEntry { id: e.id, position: e.position, stack },
                )
                &&& final(self).dirty
            },
            !old(self).entries@.contains_key(id.0) ==> final(self).entries@ == old(self).entries@
                && final(self).dirty == old(self).dirty,
    {
        if let Some(entry) = self.entries.remove(&id.0) {
            let updated = WorldItemEntry { id: entry.id, position: entry.position, stack };
            self.entries.insert(id.0, updated);
            self.dirty = true;
            proof {
                assert(self.entries@ =~= old(self).entries@.insert(id.0, updated));
            }
        }
    }
}

} // verus!
