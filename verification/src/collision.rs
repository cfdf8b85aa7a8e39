//! The spatial index over the hitboxes of the live tanks.

use crate::geometry::{Angle, Point};
use crate::hitbox::{Envelope, Hitbox};
use crate::motion::{find_local, local_of, Local};
use rstar::primitives::{GeomWithData, Rectangle};
use vstd::multiset::Multiset;
use vstd::prelude::*;

verus! {

/// An R-tree of hitboxes. Each is filed under its envelope, with its centre,
/// its angle and its slot as the data that the tree keeps beside it.
#[verifier::external_body]
pub struct CollisionMap {
    rtree: rstar::RTree<GeomWithData<Rectangle<[i64; 2]>, (i64, i64, u32, usize)>>,
}

/// The hitboxes that an index holds, each as often as it was added and not
/// yet removed.
pub uninterp spec fn index_entries(map: CollisionMap) -> Multiset<Hitbox>;

/// `rstar::RTree::new`: a tree that holds nothing.
#[verifier::external_body]
fn tree_new() -> (map: CollisionMap)
    ensures
        index_entries(map) == Multiset::<Hitbox>::empty(),
{
    CollisionMap { rtree: rstar::RTree::new() }
}

/// `Clone::clone` of `rstar::RTree`: a tree that holds what this one holds.
#[verifier::external_body]
fn tree_clone(map: &CollisionMap) -> (copy: CollisionMap)
    ensures
        index_entries(copy) == index_entries(*map),
{
    CollisionMap { rtree: map.rtree.clone() }
}

/// `rstar::RTree::insert`: the tree holds `element` once more than before,
/// filed under `envelope`. To place an element the tree adds up areas of
/// boxes around the elements it holds and squares distances between their
/// centres; with every centre on the play field these stay within the
/// machine's integers.
#[verifier::external_body]
fn tree_insert(map: &mut CollisionMap, element: Hitbox, envelope: Envelope)
    requires
        element.shape().center.on_field(),
        envelope == element.shape().bounds(),
    ensures
        index_entries(*final(map)) == index_entries(*old(map)).insert(element),
{
    let Hitbox::Tank(shape, idx) = element;
    map.rtree.insert(GeomWithData::new(
        Rectangle::from_corners(
            [envelope.lower.x, envelope.lower.y],
            [envelope.upper.x, envelope.upper.y],
        ),
        (shape.center.x, shape.center.y, shape.angle.bits, idx.slot),
    ));
}

/// `rstar::RTree::remove`: where the tree holds `element`, filed under
/// `envelope`, it holds it once less afterwards and the answer is `true`;
/// where it does not, the tree stays as it is and the answer is `false`.
#[verifier::external_body]
fn tree_remove(map: &mut CollisionMap, element: Hitbox, envelope: Envelope) -> (found: bool)
    requires
        element.shape().center.on_field(),
        envelope == element.shape().bounds(),
    ensures
        found == (index_entries(*old(map)).count(element) > 0),
        index_entries(*final(map)) == if found {
            index_entries(*old(map)).remove(element)
        } else {
            index_entries(*old(map))
        },
{
    let Hitbox::Tank(shape, idx) = element;
    let item = GeomWithData::new(
        Rectangle::from_corners(
            [envelope.lower.x, envelope.lower.y],
            [envelope.upper.x, envelope.upper.y],
        ),
        (shape.center.x, shape.center.y, shape.angle.bits, idx.slot),
    );
    map.rtree.remove(&item).is_some()
}

/// `rstar::RTree::locate_all_at_point`: the elements of the tree whose
/// envelope holds `position`, each as often as the tree holds it, in the
/// order in which the tree is walked.
#[verifier::external_body]
fn tree_locate(map: &CollisionMap, position: &Point) -> (found: Vec<Hitbox>)
    ensures
        found@.to_multiset() == index_entries(*map).filter(
            |h: Hitbox| h.shape().envelops(*position),
        ),
{
    map.rtree
        .locate_all_at_point([position.x, position.y])
        .map(|item| Hitbox::new(Point::new(item.data.0, item.data.1), Angle { bits: item.data.2 }, item.data.3))
        .collect()
}

/// Whether `entry` is in `entries` and is struck at `position`: `locals`
/// says where the position lies in its frame, and with that the hitbox
/// contains the position.
pub open spec fn struck(
    entries: Multiset<Hitbox>,
    position: Point,
    locals: Seq<Local>,
    entry: Hitbox,
) -> bool {
    &&& entries.count(entry) > 0
    &&& match local_of(locals, entry.slot()) {
        Some(local) => entry.shape().covers(position, local),
        None => false,
    }
}

impl CollisionMap {
    /// The hitboxes held.
    pub open spec fn entries(self) -> Multiset<Hitbox> {
        index_entries(self)
    }

    /// An index that holds nothing.
    pub fn new() -> (map: Self)
        ensures
            map.entries() == Multiset::<Hitbox>::empty(),
    {
        tree_new()
    }

    /// An index that holds what this one holds.
    pub fn duplicate(&self) -> (copy: Self)
        ensures
            copy.entries() == self.entries(),
    {
        tree_clone(self)
    }

    /// Adds `element`.
    pub fn add(&mut self, element: Hitbox)
        requires
            element.shape().center.on_field(),
        ensures
            final(self).entries() == old(self).entries().insert(element),
    {
        let envelope = element.envelope();
        tree_insert(self, element, envelope);
    }

    /// Removes `element` once and returns it, where the index holds it;
    /// else leaves the index as it is and returns nothing.
    pub fn remove(&mut self, element: Hitbox) -> (removed: Option<Hitbox>)
        requires
            element.shape().center.on_field(),
        ensures
            removed == if old(self).entries().count(element) > 0 {
                Some(element)
            } else {
                None::<Hitbox>
            },
            final(self).entries() == if old(self).entries().count(element) > 0 {
                old(self).entries().remove(element)
            } else {
                old(self).entries()
            },
    {
        let envelope = element.envelope();
        if tree_remove(self, element, envelope) {
            Some(element)
        } else {
            None
        }
    }

    /// The entries whose envelope holds `position`, in no stated order.
    pub fn candidates(&self, position: &Point) -> (found: Vec<Hitbox>)
        ensures
            forall|h: Hitbox|
                found@.contains(h) <==> self.entries().count(h) > 0 && h.shape().envelops(
                    *position,
                ),
            found@.to_multiset() == self.entries().filter(
                |h: Hitbox| h.shape().envelops(*position),
            ),
    {
        let found = tree_locate(self, position);
        proof {
            broadcast use vstd::seq_lib::to_multiset_contains;
            let keep = |h: Hitbox| h.shape().envelops(*position);
            assert forall|h: Hitbox|
                found@.contains(h) <==> self.entries().count(h) > 0 && h.shape().envelops(
                    *position,
                ) by {
                vstd::multiset::axiom_filter_count(self.entries(), keep, h);
            }
        }
        found
    }

    /// The entry struck at `position`; of several, the one in the lowest
    /// slot. `locals` says where `position` lies in the frame of each hitbox
    /// it may be in; an entry of which it says nothing is not struck.
    pub fn collide(&self, position: &Point, locals: &[Local]) -> (hit: Option<Hitbox>)
        ensures
            match hit {
                Some(entry) => {
                    &&& struck(self.entries(), *position, locals@, entry)
                    &&& forall|other: Hitbox|
                        struck(self.entries(), *position, locals@, other) ==> entry.slot()
                            <= other.slot()
                },
                None => forall|other: Hitbox| !struck(self.entries(), *position, locals@, other),
            },
    {
        let found = self.candidates(position);
        let mut best: Option<Hitbox> = None;
        let mut i: usize = 0;
        while i < found.len()
            invariant
                i <= found@.len(),
                forall|h: Hitbox|
                    found@.contains(h) <==> self.entries().count(h) > 0 && h.shape().envelops(
                        *position,
                    ),
                match best {
                    Some(entry) => {
                        &&& struck(self.entries(), *position, locals@, entry)
                        &&& forall|j: int|
                            0 <= j < i && struck(self.entries(), *position, locals@, found@[j])
                                ==> entry.slot() <= (#[trigger] found@[j]).slot()
                    },
                    None => forall|j: int|
                        0 <= j < i ==> !struck(
                            self.entries(),
                            *position,
                            locals@,
                            #[trigger] found@[j],
                        ),
                },
            decreases found@.len() - i,
        {
            let entry = found[i];
            assert(found@.contains(entry));
            let inside = match find_local(locals, entry.tank_slot()) {
                Some(local) => entry.contains_point(position, &local),
                None => false,
            };
            if inside {
                let better = match best {
                    Some(held) => entry.tank_slot() < held.tank_slot(),
                    None => true,
                };
                if better {
                    best = Some(entry);
                }
            }
            i = i + 1;
        }
        proof {
            assert forall|other: Hitbox|
                struck(self.entries(), *position, locals@, other) implies match best {
                Some(entry) => entry.slot() <= other.slot(),
                None => false,
            } by {
                assert(found@.contains(other));
                let j = choose|j: int| 0 <= j < found@.len() && found@[j] == other;
                assert(found@[j] == other);
            }
        }
        best
    }
}

} // verus!
