use vstd::prelude::*;

use crate::error::Error;
use crate::{apply_all, apply_fixups, offsets_fit, ranges_in_bounds, Emit, Fixup, FixupKind, Label};

pub mod buffer;
pub mod map;

pub use buffer::LabelBuffer;
pub use map::LabelMap;

verus! {

/// A label whose position is known when it is made: it never takes fixups and
/// is never bound.
#[derive(Clone, Copy)]
pub struct StaticLabel {
    position: u64,
}

impl StaticLabel {
    /// The position this label stands for.
    pub closed spec fn spec_position(&self) -> u64 {
        self.position
    }

    pub fn from_position(position: u64) -> (r: StaticLabel)
        ensures
            r.spec_position() == position,
    {
        StaticLabel { position }
    }
}

impl<E: Emit, F: FixupKind<E>> Label<E, F> for StaticLabel {
    open spec fn bound(&self) -> Option<u64> {
        Some(self.spec_position())
    }

    open spec fn resolved(&self) -> Option<u64> {
        Some(self.spec_position())
    }

    open spec fn pending(&self) -> Seq<Fixup<F>> {
        Seq::empty()
    }

    open spec fn has_room(&self) -> bool {
        false
    }

    open spec fn defers(&self) -> bool {
        false
    }

    open spec fn well_formed(&self) -> bool {
        true
    }

    open spec fn added(&self, before: Self, fixup: Fixup<F>) -> bool {
        true
    }

    open spec fn bound_from(&self, before: Self, position: u64) -> bool {
        true
    }

    fn position(&self) -> (r: Option<u64>) {
        Some(self.position)
    }

    fn add_fixup(&mut self, fixup: Fixup<F>) {
    }

    fn bind(&mut self, emit: &mut E, position: u64) -> (r: Result<(), Error>) {
        Ok(())
    }
}

/// A label that holds at most one pending fixup.
pub struct OptionLabel<F> {
    position: Option<u64>,
    fixup: Option<Fixup<F>>,
}

impl<F> OptionLabel<F> {
    /// The bound position, if any.
    pub closed spec fn spec_bound(&self) -> Option<u64> {
        self.position
    }

    /// The pending fixups: none, or the one slot's content.
    pub closed spec fn spec_pending(&self) -> Seq<Fixup<F>> {
        match self.fixup {
            Some(f) => seq![f],
            None => Seq::empty(),
        }
    }

    pub fn new() -> (r: OptionLabel<F>)
        ensures
            r.spec_bound() is None,
            r.spec_pending().len() == 0,
    {
        OptionLabel { position: None, fixup: None }
    }
}

impl<E: Emit, F: FixupKind<E>> Label<E, F> for OptionLabel<F> {
    open spec fn bound(&self) -> Option<u64> {
        self.spec_bound()
    }

    open spec fn resolved(&self) -> Option<u64> {
        self.spec_bound()
    }

    open spec fn pending(&self) -> Seq<Fixup<F>> {
        self.spec_pending()
    }

    open spec fn has_room(&self) -> bool {
        self.spec_pending().len() == 0
    }

    open spec fn defers(&self) -> bool {
        false
    }

    open spec fn well_formed(&self) -> bool {
        self.spec_bound() is Some ==> self.spec_pending().len() == 0
    }

    open spec fn added(&self, before: Self, fixup: Fixup<F>) -> bool {
        true
    }

    open spec fn bound_from(&self, before: Self, position: u64) -> bool {
        true
    }

    fn position(&self) -> (r: Option<u64>) {
        self.position
    }

    fn add_fixup(&mut self, fixup: Fixup<F>) {
        self.fixup = Some(fixup);
        assert(self.spec_pending() =~= old(self).spec_pending().push(fixup));
    }

    fn bind(&mut self, emit: &mut E, position: u64) -> (r: Result<(), Error>) {
        self.position = Some(position);
        match self.fixup.take() {
            Some(fixup) => {
                let ghost one = seq![fixup];
                assert(one.drop_last() =~= Seq::<Fixup<F>>::empty());
                assert(offsets_fit(one, position) ==> crate::offset_fits(position, one[0].start));
                let ghost c0 = emit.contents();
                assert(apply_fixups::<E, F>(c0, one.drop_last(), position) == c0);
                assert(apply_fixups::<E, F>(c0, one, position) == crate::patch_with::<E, F>(c0, fixup, position));
                assert(ranges_in_bounds(one, c0.len()) <==> (fixup.start <= fixup.end <= c0.len()));
                fixup.apply_fixup(emit, position)
            },
            None => Ok(()),
        }
    }
}

/// A label that holds any number of pending fixups.
pub struct VecLabel<F> {
    position: Option<u64>,
    fixups: Vec<Fixup<F>>,
}

impl<F> VecLabel<F> {
    /// The bound position, if any.
    pub closed spec fn spec_bound(&self) -> Option<u64> {
        self.position
    }

    /// The pending fixups, in registration order.
    pub closed spec fn spec_pending(&self) -> Seq<Fixup<F>> {
        self.fixups@
    }

    pub fn new() -> (r: VecLabel<F>)
        ensures
            r.spec_bound() is None,
            r.spec_pending().len() == 0,
    {
        VecLabel { position: None, fixups: Vec::new() }
    }
}

impl<E: Emit, F: FixupKind<E>> Label<E, F> for VecLabel<F> {
    open spec fn bound(&self) -> Option<u64> {
        self.spec_bound()
    }

    open spec fn resolved(&self) -> Option<u64> {
        self.spec_bound()
    }

    open spec fn pending(&self) -> Seq<Fixup<F>> {
        self.spec_pending()
    }

    open spec fn has_room(&self) -> bool {
        true
    }

    open spec fn defers(&self) -> bool {
        false
    }

    open spec fn well_formed(&self) -> bool {
        self.spec_bound() is Some ==> self.spec_pending().len() == 0
    }

    open spec fn added(&self, before: Self, fixup: Fixup<F>) -> bool {
        true
    }

    open spec fn bound_from(&self, before: Self, position: u64) -> bool {
        true
    }

    fn position(&self) -> (r: Option<u64>) {
        self.position
    }

    fn add_fixup(&mut self, fixup: Fixup<F>) {
        self.fixups.push(fixup);
    }

    fn bind(&mut self, emit: &mut E, position: u64) -> (r: Result<(), Error>) {
        self.position = Some(position);
        let mut fixups: Vec<Fixup<F>> = Vec::new();
        std::mem::swap(&mut self.fixups, &mut fixups);
        apply_all(emit, &fixups, position)
    }
}

/// A label that holds at most `N` pending fixups.
pub struct ArrayVecLabel<F, const N: usize> {
    position: Option<u64>,
    fixups: Vec<Fixup<F>>,
}

impl<F, const N: usize> ArrayVecLabel<F, N> {
    /// The bound position, if any.
    pub closed spec fn spec_bound(&self) -> Option<u64> {
        self.position
    }

    /// The pending fixups, in registration order.
    pub closed spec fn spec_pending(&self) -> Seq<Fixup<F>> {
        self.fixups@
    }

    pub fn new() -> (r: ArrayVecLabel<F, N>)
        ensures
            r.spec_bound() is None,
            r.spec_pending().len() == 0,
    {
        ArrayVecLabel { position: None, fixups: Vec::new() }
    }
}

impl<E: Emit, F: FixupKind<E>, const N: usize> Label<E, F> for ArrayVecLabel<F, N> {
    open spec fn bound(&self) -> Option<u64> {
        self.spec_bound()
    }

    open spec fn resolved(&self) -> Option<u64> {
        self.spec_bound()
    }

    open spec fn pending(&self) -> Seq<Fixup<F>> {
        self.spec_pending()
    }

    open spec fn has_room(&self) -> bool {
        self.spec_pending().len() < N
    }

    open spec fn defers(&self) -> bool {
        false
    }

    open spec fn well_formed(&self) -> bool {
        &&& self.spec_pending().len() <= N
        &&& self.spec_bound() is Some ==> self.spec_pending().len() == 0
    }

    open spec fn added(&self, before: Self, fixup: Fixup<F>) -> bool {
        true
    }

    open spec fn bound_from(&self, before: Self, position: u64) -> bool {
        true
    }

    fn position(&self) -> (r: Option<u64>) {
        self.position
    }

    fn add_fixup(&mut self, fixup: Fixup<F>) {
        self.fixups.push(fixup);
    }

    fn bind(&mut self, emit: &mut E, position: u64) -> (r: Result<(), Error>) {
        self.position = Some(position);
        let mut fixups: Vec<Fixup<F>> = Vec::new();
        std::mem::swap(&mut self.fixups, &mut fixups);
        apply_all(emit, &fixups, position)
    }
}

} // verus!
