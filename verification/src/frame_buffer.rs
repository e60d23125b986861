//! The fixed-capacity byte buffer that the receive path fills and the parsing
//! task drains.
//!
//! The buffer is a plain array with a write cursor. Exclusive access is what a
//! `&mut FrameBuffer` stands for: whoever holds it is inside the critical
//! section, and every operation here touches the storage and the cursor
//! together.

use crate::zero_scan::{first_zero, lemma_first_zero_unique, padded, zero_from};
use vstd::prelude::*;

verus! {

/// Mathematical model of a frame buffer: its storage and its write cursor.
pub struct BufferModel {
    pub bytes: Seq<u8>,
    pub cursor: nat,
}

impl BufferModel {
    /// The storage holds at least one byte and the cursor points into it.
    pub open spec fn wf(self) -> bool {
        0 < self.bytes.len() && self.cursor < self.bytes.len()
    }

    /// The buffer of the given capacity as it is at system start: all zero,
    /// cursor at the start.
    pub open spec fn fresh(capacity: nat) -> BufferModel {
        BufferModel { bytes: Seq::new(capacity, |i: int| 0u8), cursor: 0 }
    }

    /// All zero, cursor at the start.
    pub open spec fn is_clear(self) -> bool {
        self.cursor == 0 && zero_from(self.bytes, 0)
    }

    /// The bytes stored since the cursor was last reset, as far as none was
    /// overwritten: the storage before the cursor.
    pub open spec fn content(self) -> Seq<u8> {
        self.bytes.take(self.cursor as int)
    }

    /// The storage from the cursor on is zero.
    pub open spec fn tidy(self) -> bool {
        zero_from(self.bytes, self.cursor)
    }

    /// Storing one byte: it lands under the cursor, and the cursor advances,
    /// wrapping to the start when it leaves the storage.
    pub open spec fn store(self, byte: u8) -> BufferModel {
        BufferModel {
            bytes: self.bytes.update(self.cursor as int, byte),
            cursor: ((self.cursor + 1) as int % self.bytes.len() as int) as nat,
        }
    }

    /// Storing a run of bytes, first to last.
    pub open spec fn store_all(self, run: Seq<u8>) -> BufferModel
        decreases run.len(),
    {
        if run.len() == 0 {
            self
        } else {
            self.store_all(run.drop_last()).store(run.last())
        }
    }
}

/// A byte buffer of capacity `N` with a write cursor.
pub struct FrameBuffer<const N: usize> {
    bytes: [u8; N],
    cursor: usize,
}

impl<const N: usize> View for FrameBuffer<N> {
    type V = BufferModel;

    closed spec fn view(&self) -> BufferModel {
        BufferModel { bytes: self.bytes@, cursor: self.cursor as nat }
    }
}

impl<const N: usize> FrameBuffer<N> {
    /// What holds of every buffer that executable code can hold: the model is
    /// well formed and its storage has `N` bytes.
    #[verifier::type_invariant]
    pub open spec fn inv(self) -> bool {
        self@.wf() && self@.bytes.len() == N
    }

    /// An all-zero buffer with the cursor at the start.
    pub fn new() -> (buffer: Self)
        requires
            0 < N,
        ensures
            buffer@ == BufferModel::fresh(N as nat),
    {
        let buffer = FrameBuffer { bytes: [0u8; N], cursor: 0 };
        assert(buffer@.bytes =~= BufferModel::fresh(N as nat).bytes);
        buffer
    }

    /// The position that the next byte is stored at.
    pub fn cursor(&self) -> (cursor: usize)
        ensures
            cursor == self@.cursor,
            cursor < N,
    {
        proof {
            use_type_invariant(self);
        }
        self.cursor
    }

    /// How many bytes the storage holds.
    pub fn capacity(&self) -> (capacity: usize)
        ensures
            capacity == self@.bytes.len(),
            capacity == N,
    {
        N
    }

    /// The storage as it is, meaningful or not.
    pub fn bytes(&self) -> (bytes: &[u8; N])
        ensures
            bytes@ == self@.bytes,
    {
        &self.bytes
    }

    /// Whether the buffer is as it is at system start: all zero, cursor at
    /// the start.
    pub fn is_clear(&self) -> (clear: bool)
        ensures
            clear == self@.is_clear(),
    {
        if self.cursor != 0 {
            return false;
        }
        let mut i: usize = 0;
        while i < N
            invariant
                i <= N,
                forall|j: int| 0 <= j < i ==> self.bytes@[j] == 0,
            decreases N - i,
        {
            if self.bytes[i] != 0 {
                return false;
            }
            i = i + 1;
        }
        true
    }

    /// Stores one byte under the cursor and advances the cursor with wrap.
    pub fn push(&mut self, byte: u8)
        ensures
            final(self)@ == old(self)@.store(byte),
            final(self)@.bytes == old(self)@.bytes.update(old(self)@.cursor as int, byte),
            final(self)@.cursor == if old(self)@.cursor + 1 == N {
                0
            } else {
                old(self)@.cursor + 1
            },
        no_unwind
    {
        proof {
            use_type_invariant(&*self);
            if self.cursor + 1 == N {
                vstd::arithmetic::div_mod::lemma_mod_self_0(N as int);
            } else {
                vstd::arithmetic::div_mod::lemma_small_mod((self.cursor + 1) as nat, N as nat);
            }
        }
        self.bytes[self.cursor] = byte;
        self.cursor = (self.cursor + 1) % N;
    }

    /// Moves the bytes before the first zero byte into `output` and fills the
    /// rest of `output` with zeros; clears the whole storage in the same pass
    /// and resets the cursor. Returns how many bytes were moved.
    pub fn take_until_zero(&mut self, output: &mut [u8; N]) -> (count: usize)
        ensures
            count == first_zero(old(self)@.bytes),
            count <= N,
            final(self)@ == BufferModel::fresh(N as nat),
            final(output)@ == padded(old(self)@.bytes.take(count as int), N as nat),
        no_unwind
    {
        proof {
            use_type_invariant(&*self);
        }
        let mut count: usize = 0;
        let mut i: usize = 0;
        while i < N
            invariant
                0 < N,
                i <= N,
                count <= i,
                self.cursor < N,
                forall|j: int| 0 <= j < count ==> old(self).bytes@[j] != 0,
                count < i ==> old(self).bytes@[count as int] == 0,
                forall|j: int| 0 <= j < i ==> self.bytes@[j] == 0,
                forall|j: int| i <= j < N ==> self.bytes@[j] == old(self).bytes@[j],
                forall|j: int| 0 <= j < count ==> output@[j] == old(self).bytes@[j],
                forall|j: int| count <= j < i ==> output@[j] == 0,
            decreases N - i,
        {
            let byte: u8 = self.bytes[i];
            if count == i && byte != 0 {
                output[i] = byte;
                count = count + 1;
            } else {
                output[i] = 0;
            }
            self.bytes[i] = 0;
            i = i + 1;
        }
        self.cursor = 0;
        proof {
            lemma_first_zero_unique(old(self)@.bytes, count as nat);
            assert(self@.bytes =~= BufferModel::fresh(N as nat).bytes);
            assert(output@ =~= padded(old(self)@.bytes.take(count as int), N as nat));
        }
        count
    }

    /// Moves the bytes before the cursor into `output` and fills the rest of
    /// `output` with zeros; clears the whole storage in the same pass and
    /// resets the cursor. Returns how many bytes were moved.
    pub fn take_to_cursor(&mut self, output: &mut [u8; N]) -> (count: usize)
        ensures
            count == old(self)@.cursor,
            count < N,
            final(self)@ == BufferModel::fresh(N as nat),
            final(output)@ == padded(old(self)@.content(), N as nat),
        no_unwind
    {
        proof {
            use_type_invariant(&*self);
        }
        let end: usize = self.cursor;
        let mut i: usize = 0;
        while i < N
            invariant
                0 < N,
                i <= N,
                end < N,
                end == old(self).cursor,
                self.cursor == old(self).cursor,
                forall|j: int| 0 <= j < i ==> self.bytes@[j] == 0,
                forall|j: int| i <= j < N ==> self.bytes@[j] == old(self).bytes@[j],
                forall|j: int| 0 <= j < i && j < end ==> output@[j] == old(self).bytes@[j],
                forall|j: int| end <= j < i ==> output@[j] == 0,
            decreases N - i,
        {
            if i < end {
                output[i] = self.bytes[i];
            } else {
                output[i] = 0;
            }
            self.bytes[i] = 0;
            i = i + 1;
        }
        self.cursor = 0;
        proof {
            assert(self@.bytes =~= BufferModel::fresh(N as nat).bytes);
            assert(output@ =~= padded(old(self)@.content(), N as nat));
        }
        end
    }
}

} // verus!
