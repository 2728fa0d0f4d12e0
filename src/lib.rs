use vstd::prelude::*;

pub mod error;
pub mod encoding;
pub mod impls;
pub mod lemmas;
pub mod label;

pub use error::Error;
pub use label::{LabelBuffer, LabelMap};

verus! {

/// The signed distance from `from` to `target`, as a mathematical integer.
pub open spec fn rel_offset(target: u64, from: u64) -> int {
    target as int - from as int
}

/// Whether the distance from `from` to `target` is representable as an `i64`.
pub open spec fn offset_fits(target: u64, from: u64) -> bool {
    i64::MIN <= rel_offset(target, from) <= i64::MAX
}

/// `contents` with the bytes starting at `start` replaced by `data`.
pub open spec fn splice(contents: Seq<u8>, start: int, data: Seq<u8>) -> Seq<u8> {
    contents.subrange(0, start) + data + contents.subrange(start + data.len(), contents.len() as int)
}

/// Computes `target - from` in signed 64-bit arithmetic.
pub fn relative_offset(target: u64, from: u64) -> (r: i64)
    requires
        offset_fits(target, from),
    ensures
        r as int == rel_offset(target, from),
{
    (target as i128 - from as i128) as i64
}

/// Appending raw bytes to a sink.
pub trait EmitSlice: Sized {
    type Error;

    /// The bytes that can be read and patched, indexed by position.
    spec fn contents(&self) -> Seq<u8>;

    /// The position at which the next byte is written.
    spec fn spec_position(&self) -> u64;

    /// Whether `n` more bytes can be appended.
    spec fn can_append(&self, n: nat) -> bool;

    /// Appends `slice` at the current position.
    fn emit_slice(&mut self, slice: &[u8]) -> (r: Result<(), Self::Error>)
        ensures
            r is Ok <==> old(self).can_append(slice@.len()),
            r is Ok ==> {
                &&& final(self).spec_position() == old(self).spec_position() + slice@.len()
                &&& old(self).spec_position() <= old(self).contents().len()
                &&& final(self).spec_position() <= final(self).contents().len()
                &&& final(self).contents().subrange(0, old(self).spec_position() as int)
                    == old(self).contents().subrange(0, old(self).spec_position() as int)
                &&& final(self).contents().subrange(
                    old(self).spec_position() as int,
                    final(self).spec_position() as int,
                ) == slice@
            },
    ;
}

/// A byte sink whose earlier bytes can be patched in place.
pub trait Emit: EmitSlice {
    /// The current write position.
    fn position(&self) -> (r: u64)
        ensures
            r == self.spec_position(),
    ;

    /// Overwrites the bytes at `start .. start + data.len()` with `data`.
    fn patch_slice(&mut self, start: u64, data: &[u8]) -> (r: Result<(), Error>)
        ensures
            r is Ok <==> start + data@.len() <= old(self).contents().len(),
            r is Ok ==> final(self).contents() == splice(old(self).contents(), start as int, data@),
            r is Err ==> final(self).contents() == old(self).contents(),
            final(self).spec_position() == old(self).spec_position(),
    ;
}


/// `after` holds the bytes of `before` up to its position, followed by `bytes`,
/// and its position has advanced past them.
pub open spec fn appended<E: EmitSlice>(before: E, after: E, bytes: Seq<u8>) -> bool {
    &&& after.spec_position() == before.spec_position() + bytes.len()
    &&& before.spec_position() <= before.contents().len()
    &&& after.spec_position() <= after.contents().len()
    &&& after.contents().subrange(0, before.spec_position() as int) == before.contents().subrange(
        0,
        before.spec_position() as int,
    )
    &&& after.contents().subrange(before.spec_position() as int, after.spec_position() as int) == bytes
}

/// A way to re-encode the bytes of an earlier reference once its offset is known.
pub trait FixupKind<E: Emit> {
    /// The sink contents after the range `start .. end` of `contents` is patched
    /// to encode `offset`.
    spec fn patched(&self, contents: Seq<u8>, start: u64, end: u64, offset: i64) -> Seq<u8>;

    /// Patches the range `start .. end` of the sink to encode `offset`.
    fn apply_fixup(&self, emit: &mut E, start: u64, end: u64, offset: i64) -> (r: Result<(), Error>)
        ensures
            r is Ok <==> start <= end <= old(emit).contents().len(),
            r is Ok ==> final(emit).contents() == self.patched(old(emit).contents(), start, end, offset),
            r is Err ==> final(emit).contents() == old(emit).contents(),
            final(emit).contents().len() == old(emit).contents().len(),
            final(emit).spec_position() == old(emit).spec_position(),
    ;
}

/// A pending patch: the bytes `start .. end` hold a placeholder that `fixup_kind`
/// re-encodes once the target position is known.
pub struct Fixup<F> {
    pub start: u64,
    pub end: u64,
    pub fixup_kind: F,
}

/// The contents after `fixup` is applied for a label bound at `position`.
pub open spec fn patch_with<E: Emit, F: FixupKind<E>>(
    contents: Seq<u8>,
    fixup: Fixup<F>,
    position: u64,
) -> Seq<u8> {
    fixup.fixup_kind.patched(contents, fixup.start, fixup.end, rel_offset(position, fixup.start) as i64)
}

/// The contents after every fixup of `fixups` is applied, in order, for a label
/// bound at `position`.
pub open spec fn apply_fixups<E: Emit, F: FixupKind<E>>(
    contents: Seq<u8>,
    fixups: Seq<Fixup<F>>,
    position: u64,
) -> Seq<u8>
    decreases fixups.len(),
{
    if fixups.len() == 0 {
        contents
    } else {
        patch_with::<E, F>(apply_fixups::<E, F>(contents, fixups.drop_last(), position), fixups.last(), position)
    }
}

/// Every offset from a fixup of `fixups` to `position` fits in an `i64`.
pub open spec fn offsets_fit<F>(fixups: Seq<Fixup<F>>, position: u64) -> bool {
    forall|i: int| 0 <= i < fixups.len() ==> offset_fits(position, #[trigger] fixups[i].start)
}

/// Every fixup of `fixups` covers a range inside a sink of `len` bytes.
pub open spec fn ranges_in_bounds<F>(fixups: Seq<Fixup<F>>, len: nat) -> bool {
    forall|i: int| 0 <= i < fixups.len() ==> #[trigger] fixups[i].start <= fixups[i].end <= len
}

impl<F> Fixup<F> {
    /// Patches this fixup's range for a label bound at `label_position`, with the
    /// offset `label_position - start`.
    pub fn apply_fixup<E: Emit>(&self, emit: &mut E, label_position: u64) -> (r: Result<(), Error>) where
        F: FixupKind<E>,
        requires
            offset_fits(label_position, self.start),
        ensures
            r is Ok <==> self.start <= self.end <= old(emit).contents().len(),
            r is Ok ==> final(emit).contents() == patch_with::<E, F>(old(emit).contents(), *self, label_position),
            r is Err ==> final(emit).contents() == old(emit).contents(),
            final(emit).contents().len() == old(emit).contents().len(),
            final(emit).spec_position() == old(emit).spec_position(),
    {
        let offset = relative_offset(label_position, self.start);
        self.fixup_kind.apply_fixup(emit, self.start, self.end, offset)
    }
}

/// Applying `fixups` in order to `before` stopped at the first fixup whose range
/// lies outside the sink: the ones before it were applied, giving `after`, and
/// no later one was.
pub open spec fn stopped_at_first_failure<E: Emit, F: FixupKind<E>>(
    before: Seq<u8>,
    after: Seq<u8>,
    fixups: Seq<Fixup<F>>,
    position: u64,
) -> bool {
    exists|k: int|
        0 <= k < fixups.len() && ranges_in_bounds(fixups.subrange(0, k), before.len()) && !(
        #[trigger] fixups[k].start <= fixups[k].end <= before.len()) && after == apply_fixups::<E, F>(
            before,
            fixups.subrange(0, k),
            position,
        )
}

/// Applies `fixups` in order for a label bound at `position`, stopping at the
/// first failure.
pub fn apply_all<E: Emit, F: FixupKind<E>>(emit: &mut E, fixups: &Vec<Fixup<F>>, position: u64) -> (r: Result<(), Error>)
    requires
        offsets_fit(fixups@, position),
    ensures
        r is Ok <==> ranges_in_bounds(fixups@, old(emit).contents().len()),
        r is Ok ==> final(emit).contents() == apply_fixups::<E, F>(old(emit).contents(), fixups@, position),
        r is Err ==> stopped_at_first_failure::<E, F>(old(emit).contents(), final(emit).contents(), fixups@, position),
        final(emit).contents().len() == old(emit).contents().len(),
        final(emit).spec_position() == old(emit).spec_position(),
{
    let ghost c0 = emit.contents();
    let mut i: usize = 0;
    while i < fixups.len()
        invariant
            0 <= i <= fixups@.len(),
            offsets_fit(fixups@, position),
            ranges_in_bounds(fixups@.subrange(0, i as int), c0.len()),
            emit.contents() == apply_fixups::<E, F>(c0, fixups@.subrange(0, i as int), position),
            emit.contents().len() == c0.len(),
            c0 == old(emit).contents(),
            emit.spec_position() == old(emit).spec_position(),
        decreases fixups@.len() - i,
    {
        let ghost prefix = fixups@.subrange(0, i as int);
        let ghost next = fixups@.subrange(0, i + 1);
        assert(next.drop_last() =~= prefix);
        assert(next.last() == fixups@[i as int]);
        match fixups[i].apply_fixup(emit, position) {
            Ok(()) => {
                assert(fixups@[i as int].start <= fixups@[i as int].end <= c0.len());
            },
            Err(e) => {
                assert(!(fixups@[i as int].start <= fixups@[i as int].end <= c0.len()));
                assert(!ranges_in_bounds(fixups@, c0.len()));
                assert(stopped_at_first_failure::<E, F>(c0, emit.contents(), fixups@, position)) by {
                    assert(prefix == fixups@.subrange(0, i as int));
                }
                return Err(e);
            },
        }
        i = i + 1;
        assert(ranges_in_bounds(next, c0.len())) by {
            assert forall|k: int| 0 <= k < next.len() implies #[trigger] next[k].start <= next[k].end <= c0.len() by {
                if k < i - 1 {
                    assert(next[k] == prefix[k]);
                } else {
                    assert(next[k] == fixups@[k]);
                }
            }
        }
    }
    assert(fixups@.subrange(0, fixups@.len() as int) =~= fixups@);
    Ok(())
}

/// The capability every label representation offers: report its position,
/// accept a pending fixup, and bind to a position.
pub trait Label<E: Emit, F: FixupKind<E>>: Sized {
    /// The position that `position` reports: `None` while the label is unbound,
    /// and for a representation that never reports one.
    spec fn bound(&self) -> Option<u64>;

    /// The position the label is bound to, or `None` while it is unbound.
    spec fn resolved(&self) -> Option<u64>;

    /// The fixups registered and not yet applied, in registration order.
    spec fn pending(&self) -> Seq<Fixup<F>>;

    /// Whether one more fixup can be registered.
    spec fn has_room(&self) -> bool;

    /// The representation's internal invariant.
    spec fn well_formed(&self) -> bool;

    /// Whether binding leaves the pending fixups to a later batch pass instead
    /// of applying them at once.
    spec fn defers(&self) -> bool;

    /// What else registering `fixup` changed, from `before`, in the storage the
    /// label lives in.
    spec fn added(&self, before: Self, fixup: Fixup<F>) -> bool;

    /// What else binding at `position` changed, from `before`, in the storage
    /// the label lives in.
    spec fn bound_from(&self, before: Self, position: u64) -> bool;

    fn position(&self) -> (r: Option<u64>)
        requires
            self.well_formed(),
        ensures
            r == self.bound(),
    ;

    /// Registers a fixup against this unbound label.
    fn add_fixup(&mut self, fixup: Fixup<F>)
        requires
            old(self).well_formed(),
            old(self).bound() is None,
            old(self).has_room(),
        ensures
            final(self).well_formed(),
            final(self).bound() is None,
            final(self).resolved() == old(self).resolved(),
            final(self).defers() == old(self).defers(),
            final(self).pending() == old(self).pending().push(fixup),
            final(self).added(*old(self), fixup),
    ;

    /// Binds this label to `position`. Unless the label defers, every pending
    /// fixup is applied, in registration order, with the offset from its range
    /// start to `position`; a deferring label keeps them for its collection's
    /// batch pass and leaves the sink alone.
    fn bind(&mut self, emit: &mut E, position: u64) -> (r: Result<(), Error>)
        requires
            old(self).well_formed(),
            old(self).resolved() is None,
            !old(self).defers() ==> offsets_fit(old(self).pending(), position),
        ensures
            final(self).well_formed(),
            final(self).resolved() == Some(position),
            final(self).defers() == old(self).defers(),
            final(self).bound_from(*old(self), position),
            final(emit).spec_position() == old(emit).spec_position(),
            old(self).defers() ==> {
                &&& r is Ok
                &&& final(self).pending() == old(self).pending()
                &&& *final(emit) == *old(emit)
            },
            !old(self).defers() ==> {
                &&& final(self).pending().len() == 0
                &&& final(emit).contents().len() == old(emit).contents().len()
                &&& r is Ok <==> ranges_in_bounds(old(self).pending(), old(emit).contents().len())
                &&& r is Ok ==> final(emit).contents() == apply_fixups::<E, F>(
                    old(emit).contents(),
                    old(self).pending(),
                    position,
                )
                &&& r is Err ==> stopped_at_first_failure::<E, F>(
                    old(emit).contents(),
                    final(emit).contents(),
                    old(self).pending(),
                    position,
                )
            },
    ;
}

/// The outcome of binding `before` at `position`, giving `after`, with the sink
/// going from `e0` to `e1` and the result `r`.
pub open spec fn bind_done<E: Emit, F: FixupKind<E>, L: Label<E, F>>(
    before: L,
    after: L,
    e0: E,
    e1: E,
    position: u64,
    r: Result<(), Error>,
) -> bool {
    &&& after.well_formed()
    &&& after.resolved() == Some(position)
    &&& after.defers() == before.defers()
    &&& after.bound_from(before, position)
    &&& e1.spec_position() == e0.spec_position()
    &&& before.defers() ==> {
        &&& r is Ok
        &&& after.pending() == before.pending()
        &&& e1 == e0
    }
    &&& !before.defers() ==> {
        &&& after.pending().len() == 0
        &&& e1.contents().len() == e0.contents().len()
        &&& r is Ok <==> ranges_in_bounds(before.pending(), e0.contents().len())
        &&& r is Ok ==> e1.contents() == apply_fixups::<E, F>(e0.contents(), before.pending(), position)
        &&& r is Err ==> stopped_at_first_failure::<E, F>(e0.contents(), e1.contents(), before.pending(), position)
    }
}

/// An encoder that appends a relative reference for a given signed offset.
pub trait Encode<E: EmitSlice> {
    type Error;

    /// The bytes written for `offset`.
    spec fn encoding(&self, offset: i64) -> Seq<u8>;

    /// Whether writing `offset` into `emit` succeeds.
    spec fn succeeds(&self, emit: E, offset: i64) -> bool;

    fn encode(self, emit: &mut E, offset: i64) -> (r: Result<(), Self::Error>)
        ensures
            r is Ok <==> self.succeeds(*old(emit), offset),
            r is Ok ==> appended(*old(emit), *final(emit), self.encoding(offset)),
    ;
}

/// The decision at the heart of emitting a reference: a bound label gets its
/// final offset written now; an unbound one gets a placeholder written with
/// offset zero, and the fixup covering the placeholder is handed back.
pub fn emit_reference<E: Emit, F: FixupKind<E>, C: Encode<E>>(
    emit: &mut E,
    label_position: Option<u64>,
    fixup_kind: F,
    encoder: C,
) -> (r: Result<Option<Fixup<F>>, C::Error>)
    requires
        label_position is Some ==> offset_fits(label_position->0, old(emit).spec_position()),
    ensures
        match label_position {
            Some(p) => {
                &&& r is Ok <==> encoder.succeeds(*old(emit), rel_offset(p, old(emit).spec_position()) as i64)
                &&& r is Ok ==> r->Ok_0 is None
                &&& r is Ok ==> appended(
                    *old(emit),
                    *final(emit),
                    encoder.encoding(rel_offset(p, old(emit).spec_position()) as i64),
                )
            },
            None => {
                &&& r is Ok <==> encoder.succeeds(*old(emit), 0)
                &&& r is Ok ==> appended(*old(emit), *final(emit), encoder.encoding(0))
                &&& r is Ok ==> r->Ok_0 == Some(Fixup {
                    start: old(emit).spec_position(),
                    end: final(emit).spec_position(),
                    fixup_kind,
                })
            },
        },
{
    match label_position {
        Some(p) => {
            let offset = relative_offset(p, emit.position());
            encoder.encode(emit, offset)?;
            Ok(None)
        },
        None => {
            let start = emit.position();
            encoder.encode(emit, 0)?;
            let end = emit.position();
            Ok(Some(Fixup { start, end, fixup_kind }))
        },
    }
}

/// Writes a reference to `label`: its final offset if the label is bound,
/// otherwise a placeholder together with a fixup registered against the label.
pub fn emit_branch<E: Emit, F: FixupKind<E>, L: Label<E, F>, C: Encode<E>>(
    emit: &mut E,
    label: &mut L,
    fixup_kind: F,
    encoder: C,
) -> (r: Result<(), C::Error>)
    requires
        old(label).well_formed(),
        old(label).bound() is None ==> old(label).has_room(),
        old(label).bound() is Some ==> offset_fits(old(label).bound()->0, old(emit).spec_position()),
    ensures
        final(label).well_formed(),
        final(label).bound() == old(label).bound(),
        final(label).resolved() == old(label).resolved(),
        final(label).defers() == old(label).defers(),
        match old(label).bound() {
            Some(p) => {
                &&& *final(label) == *old(label)
                &&& r is Ok <==> encoder.succeeds(*old(emit), rel_offset(p, old(emit).spec_position()) as i64)
                &&& r is Ok ==> appended(
                    *old(emit),
                    *final(emit),
                    encoder.encoding(rel_offset(p, old(emit).spec_position()) as i64),
                )
            },
            None => {
                &&& r is Ok <==> encoder.succeeds(*old(emit), 0)
                &&& r is Ok ==> appended(*old(emit), *final(emit), encoder.encoding(0))
                &&& r is Ok ==> final(label).pending() == old(label).pending().push(Fixup {
                    start: old(emit).spec_position(),
                    end: final(emit).spec_position(),
                    fixup_kind,
                })
                &&& r is Ok ==> final(label).added(*old(label), Fixup {
                    start: old(emit).spec_position(),
                    end: final(emit).spec_position(),
                    fixup_kind,
                })
                &&& r is Err ==> *final(label) == *old(label)
            },
        },
{
    let position = label.position();
    match emit_reference(emit, position, fixup_kind, encoder) {
        Ok(Some(fixup)) => {
            label.add_fixup(fixup);
            Ok(())
        },
        Ok(None) => Ok(()),
        Err(e) => Err(e),
    }
}

/// Binds `label` at the sink's current position.
pub fn bind_label<E: Emit, F: FixupKind<E>, L: Label<E, F>>(emit: &mut E, label: &mut L) -> (r: Result<(), Error>)
    requires
        old(label).well_formed(),
        old(label).resolved() is None,
        !old(label).defers() ==> offsets_fit(old(label).pending(), old(emit).spec_position()),
    ensures
        bind_done::<E, F, L>(*old(label), *final(label), *old(emit), *final(emit), old(emit).spec_position(), r),
{
    let position = emit.position();
    label.bind(emit, position)
}

} // verus!
