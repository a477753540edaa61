//! The shared world objects that a peer knows of, keyed by the identifier
//! that the host gave them.

use std::collections::BTreeMap;
use vstd::prelude::*;
use vstd::std_specs::btree::spec_keys_iter;
use vstd::std_specs::iter::IteratorSpec;
use vstd::std_specs::cmp::OrdSpec;

verus! {

broadcast use {vstd::std_specs::btree::group_btree_axioms, vstd::laws_cmp::group_laws_cmp};

/// A shared object waiting to be picked up.
#[derive(Clone, Copy, Debug, PartialEq, Eq, Structural)]
pub struct Pickup {
    pub x: u16,
    pub y: u16,
    pub item_type: u64,
}

impl Pickup {
    /// An object of kind `item_type` at a position.
    pub fn new(x: u16, y: u16, item_type: u64) -> (r: Pickup)
        ensures
            r == (Pickup { x, y, item_type }),
    {
        Pickup { x, y, item_type }
    }
}

/// The local mirrors of the shared objects.
#[derive(Clone, Debug)]
pub struct PickupTable {
    pub items: BTreeMap<u32, Pickup>,
}

impl View for PickupTable {
    type V = Map<u32, Pickup>;

    open spec fn view(&self) -> Map<u32, Pickup> {
        self.items@
    }
}

impl PickupTable {
    /// A table without objects.
    pub fn new() -> (r: PickupTable)
        ensures
            r@ == Map::<u32, Pickup>::empty(),
    {
        PickupTable { items: BTreeMap::new() }
    }

    /// How many objects are mirrored.
    pub fn len(&self) -> (n: usize)
        ensures
            n == self@.len(),
    {
        self.items.len()
    }

    /// Whether an object with this identifier is mirrored.
    pub fn contains(&self, id: u32) -> (r: bool)
        ensures
            r == self@.contains_key(id),
    {
        self.items.contains_key(&id)
    }

    /// The object with this identifier.
    pub fn get(&self, id: u32) -> (r: Option<Pickup>)
        ensures
            r == (if self@.contains_key(id) {
                Some(self@[id])
            } else {
                None
            }),
    {
        match self.items.get(&id) {
            Some(p) => Some(*p),
            None => None,
        }
    }

    /// The identifiers under which objects are mirrored, in ascending
    /// order.
    pub fn ids(&self) -> (r: Vec<u32>)
        ensures
            forall|i: int, j: int| 0 <= i < j < r@.len() ==> r@[i] < r@[j],
            forall|id: u32| r@.contains(id) <==> self@.contains_key(id),
    {
        let ghost keys = spec_keys_iter(&self.items).remaining();
        let mut r: Vec<u32> = Vec::new();
        for k in it: self.items.keys()
            invariant
                it.seq() == keys,
                r@.len() == it.index(),
                forall|j: int| 0 <= j < r@.len() ==> r@[j] == *keys[j],
        {
            r.push(*k);
        }
        proof {
            broadcast use vstd::laws_cmp::lemma_ref_obeys_cmp_spec;
            assert(vstd::laws_cmp::obeys_cmp::<&u32>());
            assert(vstd::std_specs::btree::increasing_seq(keys));
            assert(r@ =~= keys.unref());
            assert forall|i: int, j: int| 0 <= i < j < r@.len() implies r@[i] < r@[j] by {
                assert(OrdSpec::cmp_spec(&keys[i], &keys[j]) is Less);
            }
            assert forall|id: u32| r@.contains(id) <==> self@.contains_key(id) by {
                assert(r@.to_set().contains(id) == r@.contains(id));
            }
        }
        r
    }

    /// An object was announced. It is mirrored under its identifier; an
    /// object already mirrored under that identifier is replaced and
    /// returned.
    pub fn spawn(&mut self, id: u32, pickup: Pickup) -> (replaced: Option<Pickup>)
        ensures
            final(self)@ == old(self)@.insert(id, pickup),
            replaced == (if old(self)@.contains_key(id) {
                Some(old(self)@[id])
            } else {
                None
            }),
    {
        self.items.insert(id, pickup)
    }

    /// An object was claimed. Its mirror, if there is one, is removed and
    /// returned; where there is none, nothing changes.
    pub fn delete(&mut self, id: u32) -> (removed: Option<Pickup>)
        ensures
            final(self)@ == old(self)@.remove(id),
            removed == (if old(self)@.contains_key(id) {
                Some(old(self)@[id])
            } else {
                None
            }),
    {
        self.items.remove(&id)
    }
}

/// A second delete of the same identifier changes nothing.
pub proof fn lemma_delete_idempotent(table: Map<u32, Pickup>, id: u32)
    ensures
        table.remove(id).remove(id) == table.remove(id),
        !table.remove(id).contains_key(id),
{
    assert(table.remove(id).remove(id) =~= table.remove(id));
}

/// A delete of an identifier that is not mirrored changes nothing.
pub proof fn lemma_delete_absent(table: Map<u32, Pickup>, id: u32)
    requires
        !table.contains_key(id),
    ensures
        table.remove(id) == table,
{
    assert(table.remove(id) =~= table);
}

/// A spawn under a mirrored identifier leaves one object under it: the
/// new one.
pub proof fn lemma_spawn_overwrites(table: Map<u32, Pickup>, id: u32, a: Pickup, b: Pickup)
    ensures
        table.insert(id, a).insert(id, b) == table.insert(id, b),
{
    assert(table.insert(id, a).insert(id, b) =~= table.insert(id, b));
}

} // verus!
