use vstd::prelude::*;

use crate::error::Error;
use crate::{splice, Emit, EmitSlice};

verus! {

impl EmitSlice for Vec<u8> {
    type Error = Error;

    open spec fn contents(&self) -> Seq<u8> {
        self@
    }

    open spec fn spec_position(&self) -> u64 {
        self@.len() as u64
    }

    open spec fn can_append(&self, n: nat) -> bool {
        self@.len() + n <= usize::MAX
    }

    fn emit_slice(&mut self, slice: &[u8]) -> (r: Result<(), Error>) {
        if slice.len() > usize::MAX - self.len() {
            return Err(Error::OutOfBounds);
        }
        let ghost start = self@;
        let mut i: usize = 0;
        while i < slice.len()
            invariant
                0 <= i <= slice@.len(),
                self@ == start + slice@.subrange(0, i as int),
            decreases slice@.len() - i,
        {
            self.push(slice[i]);
            i = i + 1;
            assert(self@ =~= start + slice@.subrange(0, i as int));
        }
        let _n = self.len();
        assert(self@.subrange(start.len() as int, self@.len() as int) =~= slice@);
        assert(self@.subrange(0, start.len() as int) =~= start.subrange(0, start.len() as int));
        Ok(())
    }
}

impl Emit for Vec<u8> {
    fn position(&self) -> (r: u64) {
        self.len() as u64
    }

    fn patch_slice(&mut self, start: u64, data: &[u8]) -> (r: Result<(), Error>) {
        if start as u128 + data.len() as u128 > self.len() as u128 {
            return Err(Error::OutOfBounds);
        }
        let ghost before = self@;
        let base: usize = start as usize;
        let mut i: usize = 0;
        while i < data.len()
            invariant
                base == start,
                before.len() <= usize::MAX,
                base + data@.len() <= before.len(),
                0 <= i <= data@.len(),
                self@.len() == before.len(),
                forall|k: int| 0 <= k < base ==> self@[k] == before[k],
                forall|k: int| base <= k < base + i ==> self@[k] == data@[k - base],
                forall|k: int| base + i <= k < before.len() ==> self@[k] == before[k],
            decreases data@.len() - i,
        {
            self.set(base + i, data[i]);
            i = i + 1;
        }
        assert(self@ =~= splice(before, start as int, data@));
        Ok(())
    }
}

/// A random-access buffer of fixed size with a write cursor: appends and
/// patches past its end fail.
pub struct FixedBuffer {
    data: Vec<u8>,
    pos: u64,
}

impl FixedBuffer {
    pub closed spec fn spec_data(&self) -> Seq<u8> {
        self.data@
    }

    pub closed spec fn spec_pos(&self) -> u64 {
        self.pos
    }

    /// A zero-filled buffer of `size` bytes with the cursor at the start.
    pub fn new(size: usize) -> (r: FixedBuffer)
        ensures
            r.spec_data() == Seq::new(size as nat, |i: int| 0u8),
            r.spec_pos() == 0,
    {
        let mut data: Vec<u8> = Vec::new();
        let mut i: usize = 0;
        while i < size
            invariant
                i <= size,
                data@ == Seq::new(i as nat, |k: int| 0u8),
            decreases size - i,
        {
            data.push(0);
            i = i + 1;
            assert(data@ =~= Seq::new(i as nat, |k: int| 0u8));
        }
        FixedBuffer { data, pos: 0 }
    }

    /// The whole buffer.
    pub fn as_slice(&self) -> (r: &[u8])
        ensures
            r@ == self.spec_data(),
    {
        self.data.as_slice()
    }
}

impl EmitSlice for FixedBuffer {
    type Error = Error;

    open spec fn contents(&self) -> Seq<u8> {
        self.spec_data()
    }

    open spec fn spec_position(&self) -> u64 {
        self.spec_pos()
    }

    open spec fn can_append(&self, n: nat) -> bool {
        self.spec_pos() + n <= self.spec_data().len()
    }

    fn emit_slice(&mut self, slice: &[u8]) -> (r: Result<(), Error>) {
        if self.pos as u128 + slice.len() as u128 > self.data.len() as u128 {
            return Err(Error::OutOfBounds);
        }
        let ghost before = self.data@;
        let base: usize = self.pos as usize;
        let mut i: usize = 0;
        while i < slice.len()
            invariant
                base == self.pos,
                before.len() <= usize::MAX,
                base + slice@.len() <= before.len(),
                0 <= i <= slice@.len(),
                self.data@.len() == before.len(),
                forall|k: int| 0 <= k < base ==> self.data@[k] == before[k],
                forall|k: int| base <= k < base + i ==> self.data@[k] == slice@[k - base],
                forall|k: int| base + i <= k < before.len() ==> self.data@[k] == before[k],
            decreases slice@.len() - i,
        {
            self.data.set(base + i, slice[i]);
            i = i + 1;
        }
        self.pos = self.pos + slice.len() as u64;
        assert(self.data@.subrange(base as int, self.pos as int) =~= slice@);
        assert(self.data@.subrange(0, base as int) =~= before.subrange(0, base as int));
        Ok(())
    }
}

impl Emit for FixedBuffer {
    fn position(&self) -> (r: u64) {
        self.pos
    }

    fn patch_slice(&mut self, start: u64, data: &[u8]) -> (r: Result<(), Error>) {
        self.data.patch_slice(start, data)
    }
}

} // verus!
