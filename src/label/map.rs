use vstd::prelude::*;

use vec_map::VecMap;

use crate::error::Error;
use crate::label::buffer::{
    all_resolvable, apply_pending, apply_pending_all, fixups_of, lemma_fixups_of_push, pending_in_bounds,
    pending_stopped_at_first_failure, PendingFixup, PositionLookup,
};
use crate::{Emit, FixupKind};

verus! {

#[verifier::external_type_specification]
#[verifier::external_body]
#[verifier::reject_recursive_types(V)]
pub struct ExVecMap<V>(VecMap<V>);

/// Label positions by id.
pub type PositionMap = Map<usize, u64>;

/// The entries of a `VecMap` of positions, by key.
pub uninterp spec fn entries(m: VecMap<u64>) -> Map<usize, u64>;

/// The positions of a sparse label map, as a lookup by id.
pub open spec fn sparse_lookup(m: Map<usize, u64>) -> spec_fn(usize) -> Option<u64> {
    |id: usize| if m.contains_key(id) { Some(m[id]) } else { None }
}

/// Relies on `VecMap::new`: the map starts empty.
#[verifier::external_body]
fn map_new() -> (r: VecMap<u64>)
    ensures
        entries(r) == PositionMap::empty(),
{
    VecMap::new()
}

/// Relies on `VecMap::get`: the value stored under `key`, if any.
#[verifier::external_body]
fn map_get(m: &VecMap<u64>, key: usize) -> (r: Option<u64>)
    ensures
        r == (sparse_lookup(entries(*m)))(key),
{
    m.get(key).copied()
}

/// Relies on `VecMap::insert`: stores `value` under `key`, replacing any
/// earlier value. The map grows its vector to `key + 1` slots of
/// `Option<u64>`, so `key` must leave that size in range.
#[verifier::external_body]
fn map_insert(m: &mut VecMap<u64>, key: usize, value: u64)
    requires
        (key + 1) * 16 <= isize::MAX,
    ensures
        entries(*final(m)) == entries(*old(m)).insert(key, value),
{
    m.insert(key, value);
}

/// A collection of labels keyed by caller-chosen ids, with one shared list of
/// pending fixups that a batch pass resolves.
pub struct LabelMap<F> {
    labels: VecMap<u64>,
    fixups: Vec<PendingFixup<F>>,
}

impl<F> LabelMap<F> {
    /// The bound positions, by id.
    pub closed spec fn labels(&self) -> Map<usize, u64> {
        entries(self.labels)
    }

    /// The pending fixups of all labels, in registration order.
    pub closed spec fn pending(&self) -> Seq<PendingFixup<F>> {
        self.fixups@
    }

    pub fn new() -> (r: LabelMap<F>)
        ensures
            r.labels() == PositionMap::empty(),
            r.pending().len() == 0,
    {
        LabelMap { labels: map_new(), fixups: Vec::new() }
    }

    /// A handle to the label `id`.
    pub fn label(&mut self, id: usize) -> (r: Label<'_, F>)
        ensures
            r.id() == id,
            r.map() == *old(self),
            *final(self) == *final(r.map),
    {
        Label { map: self, id }
    }

    /// The position recorded for label `id`, if any.
    pub fn position_of(&self, id: usize) -> (r: Option<u64>)
        ensures
            r == (sparse_lookup(self.labels()))(id),
    {
        map_get(&self.labels, id)
    }

    /// Registers `fixup` against label `id`.
    pub fn add_fixup_to(&mut self, id: usize, fixup: crate::Fixup<F>)
        ensures
            final(self).labels() == old(self).labels(),
            final(self).pending() == old(self).pending().push(PendingFixup { label_id: id, fixup }),
    {
        self.fixups.push(PendingFixup { label_id: id, fixup });
    }

    /// Records that label `id` is bound at `position`; its fixups wait for the
    /// batch pass.
    pub fn bind_id(&mut self, id: usize, position: u64)
        requires
            !old(self).labels().contains_key(id),
            (id + 1) * 16 <= isize::MAX,
        ensures
            final(self).labels() == old(self).labels().insert(id, position),
            final(self).pending() == old(self).pending(),
    {
        map_insert(&mut self.labels, id, position);
    }

    /// Applies every pending fixup, in registration order, each with the
    /// position of its own label, and empties the pending list.
    pub fn fixup_all<E: Emit>(&mut self, emit: &mut E) -> (r: Result<(), Error>) where F: FixupKind<E>,
        requires
            all_resolvable(old(self).pending(), sparse_lookup(old(self).labels())),
        ensures
            final(self).labels() == old(self).labels(),
            final(self).pending().len() == 0,
            r is Ok <==> pending_in_bounds(old(self).pending(), old(emit).contents().len()),
            r is Ok ==> final(emit).contents() == apply_pending::<E, F>(
                old(emit).contents(),
                old(self).pending(),
                sparse_lookup(old(self).labels()),
            ),
            r is Err ==> pending_stopped_at_first_failure::<E, F>(
                old(emit).contents(),
                final(emit).contents(),
                old(self).pending(),
                sparse_lookup(old(self).labels()),
            ),
            final(emit).spec_position() == old(emit).spec_position(),
    {
        let mut fixups: Vec<PendingFixup<F>> = Vec::new();
        std::mem::swap(&mut self.fixups, &mut fixups);
        apply_pending_all(emit, &fixups, &self.labels)
    }

    /// Ends the map's use; every fixup must have been applied.
    pub fn finish(self)
        requires
            self.pending().len() == 0,
    {
    }
}

impl PositionLookup for VecMap<u64> {
    open spec fn at(&self) -> spec_fn(usize) -> Option<u64> {
        sparse_lookup(entries(*self))
    }

    fn lookup(&self, id: usize) -> (r: Option<u64>) {
        map_get(self, id)
    }
}

/// A handle to one label of a `LabelMap`, borrowing the map. It never reports
/// a position: references through it always take the deferred path.
pub struct Label<'a, F> {
    pub map: &'a mut LabelMap<F>,
    pub id: usize,
}

impl<'a, F> Label<'a, F> {
    /// The id of the label.
    pub open spec fn id(&self) -> usize {
        self.id
    }

    /// The map as the handle sees it now.
    pub open spec fn map(&self) -> LabelMap<F> {
        *self.map
    }
}

impl<'a, E: Emit, F: FixupKind<E>> crate::Label<E, F> for Label<'a, F> {
    open spec fn bound(&self) -> Option<u64> {
        None
    }

    open spec fn resolved(&self) -> Option<u64> {
        (sparse_lookup(self.map().labels()))(self.id())
    }

    open spec fn pending(&self) -> Seq<crate::Fixup<F>> {
        fixups_of(self.map().pending(), self.id())
    }

    open spec fn has_room(&self) -> bool {
        true
    }

    open spec fn well_formed(&self) -> bool {
        (self.id() + 1) * 16 <= isize::MAX
    }

    open spec fn defers(&self) -> bool {
        true
    }

    open spec fn added(&self, before: Self, fixup: crate::Fixup<F>) -> bool {
        &&& self.id() == before.id()
        &&& self.map().labels() == before.map().labels()
        &&& self.map().pending() == before.map().pending().push(PendingFixup { label_id: self.id(), fixup })
    }

    open spec fn bound_from(&self, before: Self, position: u64) -> bool {
        &&& self.id() == before.id()
        &&& self.map().labels() == before.map().labels().insert(self.id(), position)
        &&& self.map().pending() == before.map().pending()
    }

    fn position(&self) -> (r: Option<u64>) {
        None
    }

    fn add_fixup(&mut self, fixup: crate::Fixup<F>) {
        proof {
            lemma_fixups_of_push(self.map().pending(), PendingFixup { label_id: self.id, fixup }, self.id);
        }
        self.map.add_fixup_to(self.id, fixup);
    }

    fn bind(&mut self, emit: &mut E, position: u64) -> (r: Result<(), Error>) {
        self.map.bind_id(self.id, position);
        Ok(())
    }
}

} // verus!
