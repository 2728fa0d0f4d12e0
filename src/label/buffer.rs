use vstd::prelude::*;

use crate::error::Error;
use crate::{apply_all, apply_fixups, offset_fits, offsets_fit, patch_with, ranges_in_bounds, stopped_at_first_failure, Emit, FixupKind};

verus! {

/// A fixup registered against the label with id `label_id`.
pub struct PendingFixup<F> {
    pub label_id: usize,
    pub fixup: crate::Fixup<F>,
}

/// The fixups of `pending` that belong to label `id`, in registration order.
pub open spec fn fixups_of<F>(pending: Seq<PendingFixup<F>>, id: usize) -> Seq<crate::Fixup<F>>
    decreases pending.len(),
{
    if pending.len() == 0 {
        Seq::empty()
    } else if pending.last().label_id == id {
        fixups_of(pending.drop_last(), id).push(pending.last().fixup)
    } else {
        fixups_of(pending.drop_last(), id)
    }
}

/// The entries of `pending` that belong to labels other than `id`, in order.
pub open spec fn others_of<F>(pending: Seq<PendingFixup<F>>, id: usize) -> Seq<PendingFixup<F>>
    decreases pending.len(),
{
    if pending.len() == 0 {
        Seq::empty()
    } else if pending.last().label_id == id {
        others_of(pending.drop_last(), id)
    } else {
        others_of(pending.drop_last(), id).push(pending.last())
    }
}

/// Registering a fixup for `id` adds it to the end of `id`'s fixups and leaves
/// every other label's fixups alone.
pub proof fn lemma_fixups_of_push<F>(pending: Seq<PendingFixup<F>>, p: PendingFixup<F>, id: usize)
    ensures
        fixups_of(pending.push(p), id) == if p.label_id == id {
            fixups_of(pending, id).push(p.fixup)
        } else {
            fixups_of(pending, id)
        },
        others_of(pending.push(p), id) == if p.label_id == id {
            others_of(pending, id)
        } else {
            others_of(pending, id).push(p)
        },
{
    assert(pending.push(p).drop_last() =~= pending);
}

/// Every pending fixup refers to a label of `labels`.
pub open spec fn ids_in_range<F>(pending: Seq<PendingFixup<F>>, labels: nat) -> bool {
    forall|i: int| 0 <= i < pending.len() ==> #[trigger] pending[i].label_id < labels
}

/// The positions of a dense label list, as a lookup by id.
pub open spec fn dense_lookup(labels: Seq<Option<u64>>) -> spec_fn(usize) -> Option<u64> {
    |id: usize| if id < labels.len() { labels[id as int] } else { None }
}

/// Every pending fixup refers to a label that `at` finds bound, at a position
/// whose offset from the fixup's range start fits in an `i64`.
pub open spec fn all_resolvable<F>(pending: Seq<PendingFixup<F>>, at: spec_fn(usize) -> Option<u64>) -> bool {
    forall|i: int|
        0 <= i < pending.len() ==> {
            &&& (at(#[trigger] pending[i].label_id)) is Some
            &&& offset_fits(at(pending[i].label_id)->0, pending[i].fixup.start)
        }
}

/// Every pending fixup covers a range inside a sink of `len` bytes.
pub open spec fn pending_in_bounds<F>(pending: Seq<PendingFixup<F>>, len: nat) -> bool {
    forall|i: int| 0 <= i < pending.len() ==> #[trigger] pending[i].fixup.start <= pending[i].fixup.end <= len
}

/// The contents after every pending fixup is applied, in registration order,
/// each with the position of its own label.
pub open spec fn apply_pending<E: Emit, F: FixupKind<E>>(
    contents: Seq<u8>,
    pending: Seq<PendingFixup<F>>,
    at: spec_fn(usize) -> Option<u64>,
) -> Seq<u8>
    decreases pending.len(),
{
    if pending.len() == 0 {
        contents
    } else {
        patch_with::<E, F>(
            apply_pending::<E, F>(contents, pending.drop_last(), at),
            pending.last().fixup,
            at(pending.last().label_id)->0,
        )
    }
}

/// Applying `pending` in order to `before` stopped at the first fixup whose
/// range lies outside the sink: the ones before it were applied, giving
/// `after`, and no later one was.
pub open spec fn pending_stopped_at_first_failure<E: Emit, F: FixupKind<E>>(
    before: Seq<u8>,
    after: Seq<u8>,
    pending: Seq<PendingFixup<F>>,
    at: spec_fn(usize) -> Option<u64>,
) -> bool {
    exists|k: int|
        0 <= k < pending.len() && pending_in_bounds(pending.subrange(0, k), before.len()) && !(
        #[trigger] pending[k].fixup.start <= pending[k].fixup.end <= before.len()) && after
            == apply_pending::<E, F>(before, pending.subrange(0, k), at)
}

/// Where a collection keeps its label positions.
pub trait PositionLookup {
    /// The position of each label id, `None` for an unbound one.
    spec fn at(&self) -> spec_fn(usize) -> Option<u64>;

    fn lookup(&self, id: usize) -> (r: Option<u64>)
        ensures
            r == (self.at())(id),
    ;
}

impl PositionLookup for Vec<Option<u64>> {
    open spec fn at(&self) -> spec_fn(usize) -> Option<u64> {
        dense_lookup(self@)
    }

    fn lookup(&self, id: usize) -> (r: Option<u64>) {
        if id < self.len() {
            self[id]
        } else {
            None
        }
    }
}

/// Applies `pending` in order, each fixup with the position of its label,
/// stopping at the first failure.
pub fn apply_pending_all<E: Emit, F: FixupKind<E>, P: PositionLookup>(
    emit: &mut E,
    pending: &Vec<PendingFixup<F>>,
    labels: &P,
) -> (r: Result<(), Error>)
    requires
        all_resolvable(pending@, labels.at()),
    ensures
        r is Ok <==> pending_in_bounds(pending@, old(emit).contents().len()),
        r is Ok ==> final(emit).contents() == apply_pending::<E, F>(old(emit).contents(), pending@, labels.at()),
        r is Err ==> pending_stopped_at_first_failure::<E, F>(
            old(emit).contents(),
            final(emit).contents(),
            pending@,
            labels.at(),
        ),
        final(emit).contents().len() == old(emit).contents().len(),
        final(emit).spec_position() == old(emit).spec_position(),
{
    let ghost c0 = emit.contents();
    let ghost at = labels.at();
    let mut i: usize = 0;
    while i < pending.len()
        invariant
            0 <= i <= pending@.len(),
            at == labels.at(),
            all_resolvable(pending@, at),
            pending_in_bounds(pending@.subrange(0, i as int), c0.len()),
            emit.contents() == apply_pending::<E, F>(c0, pending@.subrange(0, i as int), at),
            emit.contents().len() == c0.len(),
            c0 == old(emit).contents(),
            emit.spec_position() == old(emit).spec_position(),
        decreases pending@.len() - i,
    {
        let ghost prefix = pending@.subrange(0, i as int);
        let ghost next = pending@.subrange(0, i + 1);
        assert(next.drop_last() =~= prefix);
        assert(next.last() == pending@[i as int]);
        let entry = &pending[i];
        assert(at(entry.label_id) is Some);
        let position = match labels.lookup(entry.label_id) {
            Some(p) => p,
            None => 0,
        };
        match entry.fixup.apply_fixup(emit, position) {
            Ok(()) => {
                assert(pending@[i as int].fixup.start <= pending@[i as int].fixup.end <= c0.len());
            },
            Err(e) => {
                assert(!pending_in_bounds(pending@, c0.len()));
                assert(pending_stopped_at_first_failure::<E, F>(c0, emit.contents(), pending@, at)) by {
                    assert(prefix == pending@.subrange(0, i as int));
                }
                return Err(e);
            },
        }
        i = i + 1;
        assert(pending_in_bounds(next, c0.len())) by {
            assert forall|k: int| 0 <= k < next.len() implies #[trigger] next[k].fixup.start <= next[k].fixup.end
                <= c0.len() by {
                if k < i - 1 {
                    assert(next[k] == prefix[k]);
                    assert(prefix[k].fixup.start <= prefix[k].fixup.end <= c0.len());
                } else {
                    assert(next[k] == pending@[k]);
                }
            }
        }
    }
    assert(pending@.subrange(0, pending@.len() as int) =~= pending@);
    Ok(())
}

/// A collection of labels numbered densely from zero, with one shared list of
/// pending fixups that a batch pass resolves.
pub struct LabelBuffer<F> {
    labels: Vec<Option<u64>>,
    fixups: Vec<PendingFixup<F>>,
}

/// The id of a label of a `LabelBuffer`.
#[derive(Clone, Copy)]
pub struct LabelId {
    id: usize,
}

impl LabelId {
    /// The index of the label in its buffer.
    pub closed spec fn index(&self) -> usize {
        self.id
    }
}

impl<F> LabelBuffer<F> {
    /// The position of each label, indexed by id.
    pub closed spec fn labels(&self) -> Seq<Option<u64>> {
        self.labels@
    }

    /// The pending fixups of all labels, in registration order.
    pub closed spec fn pending(&self) -> Seq<PendingFixup<F>> {
        self.fixups@
    }

    pub open spec fn well_formed(&self) -> bool {
        ids_in_range(self.pending(), self.labels().len())
    }

    pub fn new() -> (r: LabelBuffer<F>)
        ensures
            r.well_formed(),
            r.labels().len() == 0,
            r.pending().len() == 0,
    {
        LabelBuffer { labels: Vec::new(), fixups: Vec::new() }
    }

    /// Adds an unbound label and returns its id, the number of labels before.
    pub fn new_label_id(&mut self) -> (r: LabelId)
        requires
            old(self).well_formed(),
        ensures
            final(self).well_formed(),
            r.index() == old(self).labels().len(),
            final(self).labels() == old(self).labels().push(None),
            final(self).pending() == old(self).pending(),
    {
        let id = self.labels.len();
        self.labels.push(None);
        LabelId { id }
    }

    /// Adds an unbound label and returns a handle to it.
    pub fn new_label(&mut self) -> (r: Label<'_, F>)
        requires
            old(self).well_formed(),
        ensures
            r.id() == old(self).labels().len(),
            r.buffer().labels() == old(self).labels().push(None),
            r.buffer().pending() == old(self).pending(),
            r.buffer().well_formed(),
            *final(self) == *final(r.buffer),
    {
        let id = self.new_label_id();
        self.label(id)
    }

    /// A handle to the label `id`.
    pub fn label(&mut self, id: LabelId) -> (r: Label<'_, F>)
        ensures
            r.id() == id.index(),
            r.buffer() == *old(self),
            *final(self) == *final(r.buffer),
    {
        Label { buffer: self, id: id.id }
    }

    /// The position of label `id`, if bound.
    pub fn position_of(&self, id: usize) -> (r: Option<u64>)
        requires
            id < self.labels().len(),
        ensures
            r == self.labels()[id as int],
    {
        self.labels[id]
    }

    /// Registers `fixup` against label `id`.
    pub fn add_fixup_to(&mut self, id: usize, fixup: crate::Fixup<F>)
        requires
            old(self).well_formed(),
            id < old(self).labels().len(),
        ensures
            final(self).well_formed(),
            final(self).labels() == old(self).labels(),
            final(self).pending() == old(self).pending().push(PendingFixup { label_id: id, fixup }),
    {
        self.fixups.push(PendingFixup { label_id: id, fixup });
    }

    /// Binds label `id` at `position` and applies its pending fixups at once,
    /// in registration order, taking them out of the shared list; the other
    /// labels' fixups stay, in order.
    pub fn bind<E: Emit>(&mut self, emit: &mut E, id: usize, position: u64) -> (r: Result<(), Error>) where
        F: FixupKind<E>,
        requires
            old(self).well_formed(),
            id < old(self).labels().len(),
            old(self).labels()[id as int] is None,
            offsets_fit(fixups_of(old(self).pending(), id), position),
        ensures
            final(self).well_formed(),
            final(self).labels() == old(self).labels().update(id as int, Some(position)),
            final(self).pending() == others_of(old(self).pending(), id),
            fixups_of(final(self).pending(), id).len() == 0,
            final(emit).spec_position() == old(emit).spec_position(),
            final(emit).contents().len() == old(emit).contents().len(),
            r is Ok <==> ranges_in_bounds(fixups_of(old(self).pending(), id), old(emit).contents().len()),
            r is Ok ==> final(emit).contents() == apply_fixups::<E, F>(
                old(emit).contents(),
                fixups_of(old(self).pending(), id),
                position,
            ),
            r is Err ==> stopped_at_first_failure::<E, F>(
                old(emit).contents(),
                final(emit).contents(),
                fixups_of(old(self).pending(), id),
                position,
            ),
    {
        self.labels.set(id, Some(position));
        let mut rest: Vec<PendingFixup<F>> = Vec::new();
        std::mem::swap(&mut self.fixups, &mut rest);
        let ghost all = rest@;
        let _n = rest.len();
        let mut mine: Vec<crate::Fixup<F>> = Vec::new();
        let mut k: usize = 0;
        while rest.len() > 0
            invariant
                k + rest@.len() == all.len(),
                all.len() <= usize::MAX,
                rest@ == all.subrange(k as int, all.len() as int),
                mine@ == fixups_of(all.subrange(0, k as int), id),
                self.fixups@ == others_of(all.subrange(0, k as int), id),
                fixups_of(self.fixups@, id).len() == 0,
                ids_in_range(all, self.labels@.len()),
                ids_in_range(self.fixups@, self.labels@.len()),
                self.labels@ == old(self).labels().update(id as int, Some(position)),
                all == old(self).pending(),
            decreases rest@.len(),
        {
            let x = rest.remove(0);
            proof {
                let pre = all.subrange(0, k as int);
                assert(all.subrange(0, k + 1) =~= pre.push(x));
                assert(x == all[k as int]);
                lemma_fixups_of_push(pre, x, id);
                lemma_fixups_of_push(self.fixups@, x, id);
            }
            if x.label_id == id {
                mine.push(x.fixup);
            } else {
                self.fixups.push(x);
            }
            k = k + 1;
            assert(rest@ =~= all.subrange(k as int, all.len() as int));
        }
        assert(all.subrange(0, k as int) =~= all);
        apply_all(emit, &mine, position)
    }

    /// Whether every pending fixup's label is bound, at a position whose
    /// offset from the fixup fits in an `i64`: the condition for `fixup_all`.
    pub fn is_resolvable(&self) -> (r: bool)
        requires
            self.well_formed(),
        ensures
            r == all_resolvable(self.pending(), dense_lookup(self.labels())),
    {
        let ghost at = dense_lookup(self.labels());
        let mut i: usize = 0;
        while i < self.fixups.len()
            invariant
                0 <= i <= self.pending().len(),
                self.well_formed(),
                at == dense_lookup(self.labels()),
                all_resolvable(self.pending().subrange(0, i as int), at),
            decreases self.pending().len() - i,
        {
            let ghost prefix = self.pending().subrange(0, i as int);
            let ghost next = self.pending().subrange(0, i + 1);
            let entry = &self.fixups[i];
            assert(entry.label_id < self.labels().len());
            match self.labels[entry.label_id] {
                Some(p) => {
                    let d = p as i128 - entry.fixup.start as i128;
                    if d < i64::MIN as i128 || d > i64::MAX as i128 {
                        assert(!all_resolvable(self.pending(), at) ) by {
                            assert(self.pending()[i as int] == *entry);
                        }
                        return false;
                    }
                },
                None => {
                    assert(!all_resolvable(self.pending(), at)) by {
                        assert(self.pending()[i as int] == *entry);
                    }
                    return false;
                },
            }
            i = i + 1;
            assert(all_resolvable(next, at)) by {
                assert forall|k: int| 0 <= k < next.len() implies {
                    &&& (at(#[trigger] next[k].label_id)) is Some
                    &&& offset_fits(at(next[k].label_id)->0, next[k].fixup.start)
                } by {
                    if k < i - 1 {
                        assert(next[k] == prefix[k]);
                        assert(at(prefix[k].label_id) is Some);
                    } else {
                        assert(next[k] == self.pending()[k]);
                    }
                }
            }
        }
        assert(self.pending().subrange(0, self.pending().len() as int) =~= self.pending());
        true
    }

    /// Applies every pending fixup, in registration order, each with the
    /// position of its own label, and empties the pending list.
    pub fn fixup_all<E: Emit>(&mut self, emit: &mut E) -> (r: Result<(), Error>) where F: FixupKind<E>,
        requires
            old(self).well_formed(),
            all_resolvable(old(self).pending(), dense_lookup(old(self).labels())),
        ensures
            final(self).well_formed(),
            final(self).labels() == old(self).labels(),
            final(self).pending().len() == 0,
            r is Ok <==> pending_in_bounds(old(self).pending(), old(emit).contents().len()),
            r is Ok ==> final(emit).contents() == apply_pending::<E, F>(
                old(emit).contents(),
                old(self).pending(),
                dense_lookup(old(self).labels()),
            ),
            r is Err ==> pending_stopped_at_first_failure::<E, F>(
                old(emit).contents(),
                final(emit).contents(),
                old(self).pending(),
                dense_lookup(old(self).labels()),
            ),
            final(emit).spec_position() == old(emit).spec_position(),
    {
        let mut fixups: Vec<PendingFixup<F>> = Vec::new();
        std::mem::swap(&mut self.fixups, &mut fixups);
        apply_pending_all(emit, &fixups, &self.labels)
    }

    /// Ends the buffer's use; every fixup must have been applied.
    pub fn finish(self)
        requires
            self.pending().len() == 0,
    {
    }
}

/// A handle to one label of a `LabelBuffer`, borrowing the buffer.
pub struct Label<'a, F> {
    pub buffer: &'a mut LabelBuffer<F>,
    pub id: usize,
}

impl<'a, F> Label<'a, F> {
    /// The id of the label.
    pub open spec fn id(&self) -> usize {
        self.id
    }

    /// The buffer as the handle sees it now.
    pub open spec fn buffer(&self) -> LabelBuffer<F> {
        *self.buffer
    }
}

impl<'a, E: Emit, F: FixupKind<E>> crate::Label<E, F> for Label<'a, F> {
    open spec fn bound(&self) -> Option<u64> {
        self.buffer().labels()[self.id() as int]
    }

    open spec fn resolved(&self) -> Option<u64> {
        self.buffer().labels()[self.id() as int]
    }

    open spec fn pending(&self) -> Seq<crate::Fixup<F>> {
        fixups_of(self.buffer().pending(), self.id())
    }

    open spec fn has_room(&self) -> bool {
        true
    }

    open spec fn well_formed(&self) -> bool {
        &&& self.buffer().well_formed()
        &&& self.id() < self.buffer().labels().len()
    }

    open spec fn defers(&self) -> bool {
        false
    }

    open spec fn added(&self, before: Self, fixup: crate::Fixup<F>) -> bool {
        &&& self.id() == before.id()
        &&& self.buffer().labels() == before.buffer().labels()
        &&& self.buffer().pending() == before.buffer().pending().push(PendingFixup { label_id: self.id(), fixup })
    }

    open spec fn bound_from(&self, before: Self, position: u64) -> bool {
        &&& self.id() == before.id()
        &&& self.buffer().labels() == before.buffer().labels().update(self.id() as int, Some(position))
        &&& self.buffer().pending() == others_of(before.buffer().pending(), self.id())
    }

    fn position(&self) -> (r: Option<u64>) {
        self.buffer.position_of(self.id)
    }

    fn add_fixup(&mut self, fixup: crate::Fixup<F>) {
        proof {
            lemma_fixups_of_push(self.buffer().pending(), PendingFixup { label_id: self.id, fixup }, self.id);
        }
        self.buffer.add_fixup_to(self.id, fixup);
    }

    fn bind(&mut self, emit: &mut E, position: u64) -> (r: Result<(), Error>) {
        self.buffer.bind(emit, self.id, position)
    }
}

} // verus!
