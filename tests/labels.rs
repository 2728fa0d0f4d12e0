use fixup::encoding::{encode_le, LeOffset};
use fixup::impls::FixedBuffer;
use fixup::label::{ArrayVecLabel, LabelBuffer, LabelMap, OptionLabel, StaticLabel, VecLabel};
use fixup::{bind_label, emit_branch, relative_offset, Emit, EmitSlice, Error, Fixup, Label};

const REL32: LeOffset = LeOffset { width: 4 };

fn sink_of(len: usize) -> Vec<u8> {
    vec![0xaa; len]
}

#[test]
fn forward_reference_is_patched_on_bind() {
    let mut sink = sink_of(10);
    let mut label: VecLabel<LeOffset> = VecLabel::new();
    emit_branch(&mut sink, &mut label, REL32, REL32).unwrap();
    assert_eq!(sink.len(), 14);
    assert_eq!(&sink[10..14], &[0, 0, 0, 0]);
    sink.emit_slice(&[0x90; 20]).unwrap();
    assert_eq!(Emit::position(&sink), 34);
    bind_label(&mut sink, &mut label).unwrap();
    assert_eq!(&sink[10..14], &24i32.to_le_bytes());
    assert_eq!(&sink[0..10], &[0xaa; 10]);
    assert_eq!(&sink[14..34], &[0x90; 20]);
    assert_eq!(<VecLabel<LeOffset> as Label<Vec<u8>, LeOffset>>::position(&label), Some(34));
}

#[test]
fn backward_reference_is_written_at_once() {
    let mut sink = sink_of(5);
    let mut label: OptionLabel<LeOffset> = OptionLabel::new();
    bind_label(&mut sink, &mut label).unwrap();
    sink.emit_slice(&[1, 2, 3, 4]).unwrap();
    assert_eq!(Emit::position(&sink), 9);
    emit_branch(&mut sink, &mut label, REL32, REL32).unwrap();
    assert_eq!(&sink[9..13], &(-4i32).to_le_bytes());
    // A second reference still needs no fixup: the single slot stays free.
    emit_branch(&mut sink, &mut label, REL32, REL32).unwrap();
    assert_eq!(&sink[13..17], &(-8i32).to_le_bytes());
}

#[test]
fn deferred_and_immediate_offsets_agree() {
    let mut early = sink_of(3);
    let mut label: OptionLabel<LeOffset> = OptionLabel::new();
    emit_branch(&mut early, &mut label, REL32, REL32).unwrap();
    early.emit_slice(&[0; 9]).unwrap();
    bind_label(&mut early, &mut label).unwrap();

    let mut late = sink_of(3);
    let mut target = StaticLabel::from_position(16);
    emit_branch(&mut late, &mut target, REL32, REL32).unwrap();
    assert_eq!(&early[3..7], &late[3..7]);
    assert_eq!(&late[3..7], &13i32.to_le_bytes());
}

#[test]
fn static_label_reports_its_position() {
    let label = StaticLabel::from_position(42);
    assert_eq!(<StaticLabel as Label<Vec<u8>, LeOffset>>::position(&label), Some(42));
    let mut sink = sink_of(50);
    let mut l = label;
    emit_branch(&mut sink, &mut l, REL32, REL32).unwrap();
    assert_eq!(&sink[50..54], &(-8i32).to_le_bytes());
}

#[test]
fn fixups_are_applied_in_registration_order() {
    let mut sink = Vec::new();
    let mut label: ArrayVecLabel<LeOffset, 3> = ArrayVecLabel::new();
    emit_branch(&mut sink, &mut label, REL32, REL32).unwrap();
    emit_branch(&mut sink, &mut label, LeOffset { width: 2 }, LeOffset { width: 2 }).unwrap();
    emit_branch(&mut sink, &mut label, REL32, REL32).unwrap();
    assert_eq!(sink.len(), 10);
    sink.emit_slice(&[0; 6]).unwrap();
    bind_label(&mut sink, &mut label).unwrap();
    assert_eq!(&sink[0..4], &16i32.to_le_bytes());
    assert_eq!(&sink[4..6], &12i16.to_le_bytes());
    assert_eq!(&sink[6..10], &10i32.to_le_bytes());
}

#[test]
fn unbounded_label_takes_many_fixups() {
    let mut sink = Vec::new();
    let mut label: VecLabel<LeOffset> = VecLabel::new();
    for _ in 0..100 {
        emit_branch(&mut sink, &mut label, REL32, REL32).unwrap();
    }
    bind_label(&mut sink, &mut label).unwrap();
    for i in 0..100usize {
        let expected = (400 - 4 * i) as i32;
        assert_eq!(&sink[4 * i..4 * i + 4], &expected.to_le_bytes());
    }
}

#[test]
fn bind_reports_out_of_bounds_fixup() {
    let mut label: VecLabel<LeOffset> = VecLabel::new();
    <VecLabel<LeOffset> as Label<Vec<u8>, LeOffset>>::add_fixup(
        &mut label,
        Fixup { start: 8, end: 12, fixup_kind: REL32 },
    );
    let mut sink = sink_of(10);
    let r = <VecLabel<LeOffset> as Label<Vec<u8>, LeOffset>>::bind(&mut label, &mut sink, 20);
    assert_eq!(r, Err(Error::OutOfBounds));
    assert_eq!(sink, sink_of(10));
    assert_eq!(<VecLabel<LeOffset> as Label<Vec<u8>, LeOffset>>::position(&label), Some(20));
}

#[test]
fn fixup_apply_uses_signed_offset() {
    let mut sink = sink_of(8);
    let f = Fixup { start: 4, end: 8, fixup_kind: REL32 };
    f.apply_fixup(&mut sink, 1).unwrap();
    assert_eq!(&sink[4..8], &(-3i32).to_le_bytes());
    let bad = Fixup { start: 6, end: 10, fixup_kind: REL32 };
    assert_eq!(bad.apply_fixup(&mut sink, 1), Err(Error::OutOfBounds));
}

#[test]
fn relative_offset_is_signed() {
    assert_eq!(relative_offset(34, 10), 24);
    assert_eq!(relative_offset(5, 9), -4);
    assert_eq!(relative_offset(0, i64::MAX as u64), -i64::MAX);
    assert_eq!(relative_offset(u64::MAX, u64::MAX - 7), 7);
}

#[test]
fn little_endian_bytes() {
    assert_eq!(encode_le(-4, 4), vec![0xfc, 0xff, 0xff, 0xff]);
    assert_eq!(encode_le(0x0102, 2), vec![0x02, 0x01]);
    assert_eq!(encode_le(-1, 10), vec![0xff; 10]);
    assert_eq!(encode_le(5, 10), vec![5, 0, 0, 0, 0, 0, 0, 0, 0, 0]);
    assert_eq!(encode_le(7, 0), Vec::<u8>::new());
}

#[test]
fn error_message() {
    assert_eq!(Error::OutOfBounds.message(), "range out of bounds");
}

#[test]
fn fixed_buffer_appends_and_patches() {
    let mut buf = FixedBuffer::new(8);
    assert_eq!(Emit::position(&buf), 0);
    buf.emit_slice(&[1, 2, 3]).unwrap();
    assert_eq!(Emit::position(&buf), 3);
    assert_eq!(buf.as_slice(), &[1, 2, 3, 0, 0, 0, 0, 0]);
    assert_eq!(buf.emit_slice(&[9; 6]), Err(Error::OutOfBounds));
    assert_eq!(Emit::position(&buf), 3);
    buf.patch_slice(6, &[7, 7]).unwrap();
    assert_eq!(buf.as_slice(), &[1, 2, 3, 0, 0, 0, 7, 7]);
    assert_eq!(buf.patch_slice(7, &[7, 7]), Err(Error::OutOfBounds));
}

#[test]
fn fixed_buffer_forward_reference() {
    let mut buf = FixedBuffer::new(16);
    let mut label: VecLabel<LeOffset> = VecLabel::new();
    buf.emit_slice(&[0xe9]).unwrap();
    emit_branch(&mut buf, &mut label, REL32, REL32).unwrap();
    buf.emit_slice(&[0; 5]).unwrap();
    bind_label(&mut buf, &mut label).unwrap();
    assert_eq!(&buf.as_slice()[1..5], &9i32.to_le_bytes());
}

#[test]
fn vec_sink_patch_bounds() {
    let mut sink = sink_of(4);
    assert_eq!(sink.patch_slice(2, &[1, 2, 3]), Err(Error::OutOfBounds));
    sink.patch_slice(2, &[1, 2]).unwrap();
    assert_eq!(sink, vec![0xaa, 0xaa, 1, 2]);
}

#[test]
fn label_buffer_bind_applies_that_label_only() {
    let mut sink = Vec::new();
    let mut labels: LabelBuffer<LeOffset> = LabelBuffer::new();
    let a = labels.new_label_id();
    let b = labels.new_label_id();
    emit_branch(&mut sink, &mut labels.label(a), REL32, REL32).unwrap();
    emit_branch(&mut sink, &mut labels.label(b), REL32, REL32).unwrap();
    emit_branch(&mut sink, &mut labels.label(a), REL32, REL32).unwrap();
    sink.emit_slice(&[0; 4]).unwrap();
    bind_label(&mut sink, &mut labels.label(b)).unwrap();
    // Binding `b` patches its own reference at once and leaves `a`'s alone.
    assert_eq!(&sink[4..8], &12i32.to_le_bytes());
    assert_eq!(&sink[0..4], &[0, 0, 0, 0]);
    assert_eq!(&sink[8..12], &[0, 0, 0, 0]);
    sink.emit_slice(&[0; 4]).unwrap();
    bind_label(&mut sink, &mut labels.label(a)).unwrap();
    assert_eq!(labels.position_of(0), Some(20));
    assert_eq!(labels.position_of(1), Some(16));
    assert_eq!(&sink[0..4], &20i32.to_le_bytes());
    assert_eq!(&sink[8..12], &12i32.to_le_bytes());
    // A backward reference through the buffer is resolved at once.
    emit_branch(&mut sink, &mut labels.label(b), REL32, REL32).unwrap();
    assert_eq!(&sink[20..24], &(-4i32).to_le_bytes());
    // Nothing is left for the batch pass.
    let before = sink.clone();
    labels.fixup_all(&mut sink).unwrap();
    assert_eq!(sink, before);
    labels.finish();
}

#[test]
fn label_buffer_batch_resolve() {
    let mut sink = sink_of(8);
    let mut labels: LabelBuffer<LeOffset> = LabelBuffer::new();
    labels.new_label_id();
    labels.new_label_id();
    labels.add_fixup_to(1, Fixup { start: 0, end: 4, fixup_kind: REL32 });
    assert!(!labels.is_resolvable());
    labels.add_fixup_to(0, Fixup { start: 4, end: 8, fixup_kind: REL32 });
    // Binding applies only the bound label's fixups.
    labels.bind(&mut sink, 1, 30).unwrap();
    assert_eq!(&sink[0..4], &30i32.to_le_bytes());
    assert_eq!(&sink[4..8], &[0xaa; 4]);
    assert!(!labels.is_resolvable());
    labels.bind(&mut sink, 0, 2).unwrap();
    assert_eq!(&sink[4..8], &(-2i32).to_le_bytes());
    // Fixups registered after the labels were bound wait for the batch pass.
    labels.add_fixup_to(0, Fixup { start: 0, end: 2, fixup_kind: LeOffset { width: 2 } });
    labels.add_fixup_to(1, Fixup { start: 6, end: 8, fixup_kind: LeOffset { width: 2 } });
    assert!(labels.is_resolvable());
    labels.fixup_all(&mut sink).unwrap();
    assert_eq!(&sink[0..2], &2i16.to_le_bytes());
    assert_eq!(&sink[6..8], &24i16.to_le_bytes());
    labels.finish();
}

#[test]
fn label_buffer_new_label_handle() {
    let mut sink = sink_of(2);
    let mut labels: LabelBuffer<LeOffset> = LabelBuffer::new();
    {
        let mut l = labels.new_label();
        emit_branch(&mut sink, &mut l, REL32, REL32).unwrap();
    }
    sink.emit_slice(&[0; 3]).unwrap();
    labels.bind(&mut sink, 0, 9).unwrap();
    assert_eq!(&sink[2..6], &7i32.to_le_bytes());
}

#[test]
fn label_buffer_fixup_error() {
    let mut labels: LabelBuffer<LeOffset> = LabelBuffer::new();
    labels.new_label_id();
    labels.new_label_id();
    labels.add_fixup_to(0, Fixup { start: 0, end: 2, fixup_kind: LeOffset { width: 2 } });
    labels.add_fixup_to(1, Fixup { start: 2, end: 6, fixup_kind: REL32 });
    labels.add_fixup_to(0, Fixup { start: 1, end: 3, fixup_kind: LeOffset { width: 2 } });
    let mut scratch = Vec::new();
    // Binding with an empty sink fails on every fixup, but records the positions.
    assert_eq!(labels.bind(&mut scratch, 1, 0), Err(Error::OutOfBounds));
    let mut sink = sink_of(4);
    let mut other: LabelBuffer<LeOffset> = LabelBuffer::new();
    other.new_label_id();
    other.new_label_id();
    other.bind(&mut scratch, 0, 0).unwrap();
    other.bind(&mut scratch, 1, 0).unwrap();
    other.add_fixup_to(0, Fixup { start: 0, end: 2, fixup_kind: LeOffset { width: 2 } });
    other.add_fixup_to(1, Fixup { start: 2, end: 6, fixup_kind: REL32 });
    other.add_fixup_to(0, Fixup { start: 1, end: 3, fixup_kind: LeOffset { width: 2 } });
    // The batch stops at the out-of-bounds fixup: the first was applied, the
    // third was not.
    assert_eq!(other.fixup_all(&mut sink), Err(Error::OutOfBounds));
    assert_eq!(sink, vec![0, 0, 0xaa, 0xaa]);
}

#[test]
fn label_map_sparse_ids() {
    let mut sink = Vec::new();
    let mut labels: LabelMap<LeOffset> = LabelMap::new();
    emit_branch(&mut sink, &mut labels.label(2), REL32, REL32).unwrap();
    emit_branch(&mut sink, &mut labels.label(7), REL32, REL32).unwrap();
    emit_branch(&mut sink, &mut labels.label(2), REL32, REL32).unwrap();
    sink.emit_slice(&[0; 8]).unwrap();
    bind_label(&mut sink, &mut labels.label(7)).unwrap();
    sink.emit_slice(&[0; 8]).unwrap();
    bind_label(&mut sink, &mut labels.label(2)).unwrap();
    assert_eq!(labels.position_of(7), Some(20));
    assert_eq!(labels.position_of(2), Some(28));
    assert_eq!(labels.position_of(0), None);
    assert_eq!(labels.position_of(6), None);
    labels.fixup_all(&mut sink).unwrap();
    assert_eq!(&sink[0..4], &28i32.to_le_bytes());
    assert_eq!(&sink[4..8], &16i32.to_le_bytes());
    assert_eq!(&sink[8..12], &20i32.to_le_bytes());
}

#[test]
fn label_map_handle_never_reports_position() {
    let mut sink = sink_of(4);
    let mut labels: LabelMap<LeOffset> = LabelMap::new();
    labels.bind_id(3, 1);
    {
        let l = labels.label(3);
        assert_eq!(<fixup::label::map::Label<LeOffset> as Label<Vec<u8>, LeOffset>>::position(&l), None);
    }
    // Even a backward reference goes through the batch pass.
    emit_branch(&mut sink, &mut labels.label(3), REL32, REL32).unwrap();
    assert_eq!(&sink[4..8], &[0, 0, 0, 0]);
    labels.fixup_all(&mut sink).unwrap();
    assert_eq!(&sink[4..8], &(-3i32).to_le_bytes());
}
