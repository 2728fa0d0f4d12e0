use vstd::prelude::*;

use crate::error::Error;
use crate::{splice, Emit, EmitSlice, Encode, FixupKind};

verus! {

/// Byte `k` of the little-endian two's-complement form of `offset`, extended by
/// its sign past the eighth byte.
pub open spec fn le_byte(offset: i64, k: int) -> u8 {
    if k < 8 {
        ((offset as u64) >> ((8 * k) as u64)) as u8
    } else if offset < 0 {
        0xff
    } else {
        0
    }
}

/// The first `n` little-endian bytes of `offset`.
pub open spec fn le_bytes(offset: i64, n: nat) -> Seq<u8> {
    Seq::new(n, |k: int| le_byte(offset, k))
}

/// The first `n` little-endian bytes of `offset`.
pub fn encode_le(offset: i64, n: u64) -> (r: Vec<u8>)
    ensures
        r@ == le_bytes(offset, n as nat),
{
    let bits = offset as u64;
    let mut out: Vec<u8> = Vec::new();
    let mut k: u64 = 0;
    while k < n
        invariant
            k <= n,
            bits == offset as u64,
            out@ == le_bytes(offset, k as nat),
        decreases n - k,
    {
        let b: u8 = if k < 8 {
            (bits >> (8 * k)) as u8
        } else if offset < 0 {
            0xff
        } else {
            0
        };
        out.push(b);
        k = k + 1;
        assert(out@ =~= le_bytes(offset, k as nat));
    }
    out
}

/// A relative reference written as a little-endian two's-complement offset:
/// `width` bytes when emitted, and the whole range when patched.
#[derive(Clone, Copy)]
pub struct LeOffset {
    pub width: u64,
}

impl<E: Emit> Encode<E> for LeOffset {
    type Error = <E as EmitSlice>::Error;

    open spec fn encoding(&self, offset: i64) -> Seq<u8> {
        le_bytes(offset, self.width as nat)
    }

    open spec fn succeeds(&self, emit: E, offset: i64) -> bool {
        emit.can_append(self.width as nat)
    }

    fn encode(self, emit: &mut E, offset: i64) -> (r: Result<(), Self::Error>) {
        let bytes = encode_le(offset, self.width);
        emit.emit_slice(bytes.as_slice())
    }
}

impl<E: Emit> FixupKind<E> for LeOffset {
    open spec fn patched(&self, contents: Seq<u8>, start: u64, end: u64, offset: i64) -> Seq<u8> {
        splice(contents, start as int, le_bytes(offset, (end - start) as nat))
    }

    fn apply_fixup(&self, emit: &mut E, start: u64, end: u64, offset: i64) -> (r: Result<(), Error>) {
        if start > end {
            return Err(Error::OutOfBounds);
        }
        let bytes = encode_le(offset, end - start);
        emit.patch_slice(start, bytes.as_slice())
    }
}

} // verus!
