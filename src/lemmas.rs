use vstd::prelude::*;

use crate::encoding::{le_byte, le_bytes, LeOffset};
use crate::label::{ArrayVecLabel, OptionLabel, StaticLabel};
use crate::{apply_fixups, patch_with, ranges_in_bounds, rel_offset, splice, Emit, Encode, Fixup, FixupKind, Label};

verus! {

/// No two fixups of `fixups` cover a common byte.
pub open spec fn disjoint_ranges<F>(fixups: Seq<Fixup<F>>) -> bool {
    forall|i: int, j: int|
        0 <= i < fixups.len() && 0 <= j < fixups.len() && i != j ==> #[trigger] fixups[i].end <= #[trigger] fixups[j].start
            || fixups[j].end <= fixups[i].start
}

/// Byte `k` lies in the range of some fixup of `fixups`.
pub open spec fn covered<F>(fixups: Seq<Fixup<F>>, k: int) -> bool {
    exists|i: int| 0 <= i < fixups.len() && #[trigger] fixups[i].start <= k < fixups[i].end
}

/// Binding applies each pending fixup exactly once, with the bound position:
/// once every fixup of `fixups` (with disjoint ranges inside the sink) is
/// applied for a label at `position`, each range holds the little-endian
/// encoding of `position - start`, and every byte outside the ranges is as it
/// was.
pub proof fn lemma_every_fixup_applied<E: Emit>(contents: Seq<u8>, fixups: Seq<Fixup<LeOffset>>, position: u64)
    requires
        ranges_in_bounds(fixups, contents.len()),
        disjoint_ranges(fixups),
    ensures
        apply_fixups::<E, LeOffset>(contents, fixups, position).len() == contents.len(),
        forall|i: int, k: int|
            0 <= i < fixups.len() && fixups[i].start <= k < fixups[i].end ==> #[trigger] apply_fixups::<E, LeOffset>(
                contents,
                fixups,
                position,
            )[k] == le_byte(rel_offset(position, fixups[i].start) as i64, k - #[trigger] fixups[i].start),
        forall|k: int|
            0 <= k < contents.len() && !covered(fixups, k) ==> #[trigger] apply_fixups::<E, LeOffset>(
                contents,
                fixups,
                position,
            )[k] == contents[k],
    decreases fixups.len(),
{
    if fixups.len() > 0 {
        let rest = fixups.drop_last();
        let last = fixups.last();
        assert(ranges_in_bounds(rest, contents.len())) by {
            assert forall|i: int| 0 <= i < rest.len() implies #[trigger] rest[i].start <= rest[i].end
                <= contents.len() by {
                assert(rest[i] == fixups[i]);
            }
        }
        assert(disjoint_ranges(rest)) by {
            assert forall|i: int, j: int|
                0 <= i < rest.len() && 0 <= j < rest.len() && i != j implies #[trigger] rest[i].end
                <= #[trigger] rest[j].start || rest[j].end <= rest[i].start by {
                assert(rest[i] == fixups[i]);
                assert(rest[j] == fixups[j]);
            }
        }
        lemma_every_fixup_applied::<E>(contents, rest, position);
        let prev = apply_fixups::<E, LeOffset>(contents, rest, position);
        let off = rel_offset(position, last.start) as i64;
        let data = le_bytes(off, (last.end - last.start) as nat);
        let result = apply_fixups::<E, LeOffset>(contents, fixups, position);
        assert(result == splice(prev, last.start as int, data));
        let n = fixups.len() - 1;
        assert(fixups[n] == last);
        assert(last.start <= last.end <= contents.len());
        assert(result.len() == contents.len());
        assert forall|i: int, k: int|
            0 <= i < fixups.len() && fixups[i].start <= k < fixups[i].end implies #[trigger] result[k] == le_byte(
            rel_offset(position, fixups[i].start) as i64,
            k - #[trigger] fixups[i].start,
        ) by {
            if i == n {
                assert(result[k] == data[k - last.start]);
            } else {
                assert(rest[i] == fixups[i]);
                assert(fixups[i].end <= fixups[n].start || fixups[n].end <= fixups[i].start);
                assert(result[k] == prev[k]);
            }
        }
        assert forall|k: int| 0 <= k < contents.len() && !covered(fixups, k) implies #[trigger] result[k]
            == contents[k] by {
            assert(!(fixups[n].start <= k < fixups[n].end));
            assert(result[k] == prev[k]);
            if covered(rest, k) {
                let i = choose|i: int| 0 <= i < rest.len() && #[trigger] rest[i].start <= k < rest[i].end;
                assert(rest[i] == fixups[i]);
            }
        }
    }
}

/// A reference emitted before its label is bound ends up, once patched, as the
/// same bytes that the encoder writes for a reference emitted after binding from
/// the same position.
pub proof fn lemma_deferred_matches_immediate<E: Emit>(
    contents: Seq<u8>,
    kind: LeOffset,
    from: u64,
    target: u64,
)
    requires
        from + kind.width <= contents.len(),
        from + kind.width <= u64::MAX,
        crate::offset_fits(target, from),
    ensures
        ({
            let fixup = Fixup { start: from, end: (from + kind.width) as u64, fixup_kind: kind };
            patch_with::<E, LeOffset>(contents, fixup, target).subrange(from as int, from + kind.width)
                == <LeOffset as Encode<E>>::encoding(&kind, rel_offset(target, from) as i64)
        }),
{
    let fixup = Fixup { start: from, end: (from + kind.width) as u64, fixup_kind: kind };
    let patched = patch_with::<E, LeOffset>(contents, fixup, target);
    let data = le_bytes(rel_offset(target, from) as i64, kind.width as nat);
    assert(fixup.end - fixup.start == kind.width);
    assert(patched == splice(contents, from as int, data));
    assert(patched.subrange(from as int, from + kind.width) =~= <LeOffset as Encode<E>>::encoding(
        &kind,
        rel_offset(target, from) as i64,
    ));
}

/// A label made from a known position always reports that position as bound,
/// so it admits neither a fixup (which needs room) nor a bind (which needs an
/// unbound label).
pub proof fn lemma_static_label_is_fixed<E: Emit, F: FixupKind<E>>(label: StaticLabel, position: u64)
    requires
        label.spec_position() == position,
    ensures
        <StaticLabel as Label<E, F>>::bound(&label) == Some(position),
        <StaticLabel as Label<E, F>>::resolved(&label) == Some(position),
        !<StaticLabel as Label<E, F>>::has_room(&label),
{
}

/// A bounded label that holds `N` pending fixups has no room for another.
pub proof fn lemma_full_bounded_label<E: Emit, F: FixupKind<E>, const N: usize>(label: ArrayVecLabel<F, N>)
    requires
        label.spec_pending().len() == N,
    ensures
        !<ArrayVecLabel<F, N> as Label<E, F>>::has_room(&label),
{
}

/// A single-slot label that holds a pending fixup has no room for a second.
pub proof fn lemma_occupied_single_slot<E: Emit, F: FixupKind<E>>(label: OptionLabel<F>)
    requires
        label.spec_pending().len() == 1,
    ensures
        !<OptionLabel<F> as Label<E, F>>::has_room(&label),
{
}

} // verus!
