//! The receive path: the interrupt-side ingestion of bytes into the shared
//! frame buffer, and the task-side extraction of a completed frame.
//!
//! A `Receiver` is the one datum shared across priority levels. Holding
//! `&mut Receiver` is holding the critical section: the ingestion handler and
//! the parsing task each run one of the functions below under it, so neither
//! ever sees the other half-way.

use crate::frame_buffer::{BufferModel, FrameBuffer};
use crate::receiver_laws::lemma_handle;
use crate::zero_scan::{first_zero, lemma_first_zero_of_padded, lemma_first_zero_unique, padded};
use vstd::prelude::*;

verus! {

/// How the end of a frame is recognised.
#[derive(Clone, Copy, Debug, PartialEq, Eq, Structural)]
pub enum Framing {
    /// A frame is complete when this many bytes lie in the buffer since the
    /// cursor was at the start. The parsing task then reads the buffer up to
    /// its first zero byte. The count is at least one and at most the
    /// buffer's capacity.
    FixedSize(usize),
    /// A frame is complete when the byte source runs empty after at least one
    /// byte came since the last run of the parsing task. The parsing task then
    /// reads up to the cursor.
    Sentinel,
}

impl Framing {
    /// The policy can be met by a buffer of this capacity: a fixed size is at
    /// least one and at most the capacity.
    pub open spec fn fits(self, capacity: nat) -> bool {
        self matches Framing::FixedSize(size) ==> 0 < size <= capacity
    }

    /// Whether the policy can be met by a buffer of this capacity.
    pub fn fits_capacity(self, capacity: usize) -> (fits: bool)
        ensures
            fits == self.fits(capacity as nat),
    {
        match self {
            Framing::FixedSize(size) => 0 < size && size <= capacity,
            Framing::Sentinel => true,
        }
    }
}

/// Mathematical model of the shared receive state.
pub struct ReceiverModel {
    pub buffer: BufferModel,
    pub framing: Framing,
    /// A run of the parsing task was requested and has not started yet.
    pub pending: bool,
    /// At least one byte came since the last run of the parsing task.
    pub unread: bool,
}

impl ReceiverModel {
    /// The buffer is well formed and the framing policy fits its capacity.
    pub open spec fn wf(self) -> bool {
        self.buffer.wf() && self.framing.fits(self.buffer.bytes.len())
    }

    /// The state at system start.
    pub open spec fn fresh(capacity: nat, framing: Framing) -> ReceiverModel {
        ReceiverModel {
            buffer: BufferModel::fresh(capacity),
            framing,
            pending: false,
            unread: false,
        }
    }

    /// Under fixed-size framing, the next byte brings the count of bytes in
    /// the buffer to the configured size.
    pub open spec fn next_completes(self) -> bool {
        self.framing matches Framing::FixedSize(size) && self.buffer.cursor + 1 == size
    }

    /// One received byte: it is stored, and under fixed-size framing a frame
    /// is complete if it brought the count to the configured size.
    pub open spec fn accept(self, byte: u8) -> ReceiverModel {
        ReceiverModel {
            buffer: self.buffer.store(byte),
            pending: self.pending || self.next_completes(),
            unread: true,
            ..self
        }
    }

    /// A run of received bytes, first to last.
    pub open spec fn accept_all(self, run: Seq<u8>) -> ReceiverModel
        decreases run.len(),
    {
        if run.len() == 0 {
            self
        } else {
            self.accept_all(run.drop_last()).accept(run.last())
        }
    }

    /// The byte source reports empty: under sentinel framing a frame is
    /// complete if at least one byte came since the last run of the parsing
    /// task.
    pub open spec fn source_empty(self) -> ReceiverModel {
        ReceiverModel { pending: self.pending || (self.framing is Sentinel && self.unread), ..self }
    }

    /// One invocation of the ingestion handler that drained `run` from the
    /// byte source before it reported empty.
    pub open spec fn handle(self, run: Seq<u8>) -> ReceiverModel {
        self.accept_all(run).source_empty()
    }

    /// Under fixed-size framing, the byte that comes as the `count`-th from
    /// now brings the count of bytes in the buffer to the configured size.
    pub open spec fn completes_at(self, count: int) -> bool {
        self.framing matches Framing::FixedSize(size) && (self.buffer.cursor + count - 1) % (
        self.buffer.bytes.len() as int) + 1 == size
    }

    /// Under fixed-size framing, one of the next `length` bytes brings the
    /// count of bytes in the buffer to the configured size.
    pub open spec fn completes_within(self, length: nat) -> bool {
        exists|count: int| 0 < count <= length && #[trigger] self.completes_at(count)
    }

    /// A frame becomes complete in the course of one invocation of the
    /// handler that drains `length` bytes: under fixed-size framing one of
    /// them brings the count to the configured size; under sentinel framing
    /// at least one byte came, now or since the last run of the parsing task.
    pub open spec fn completes(self, length: nat) -> bool {
        match self.framing {
            Framing::FixedSize(_) => self.completes_within(length),
            Framing::Sentinel => self.unread || length > 0,
        }
    }

    /// One invocation of the handler that drains `length` bytes requests a run
    /// of the parsing task: a frame becomes complete and no run is pending.
    pub open spec fn requests(self, length: nat) -> bool {
        !self.pending && self.completes(length)
    }

    /// How many bytes the parsing task takes out of the buffer.
    pub open spec fn frame_len(self) -> nat {
        match self.framing {
            Framing::FixedSize(_) => first_zero(self.buffer.bytes),
            Framing::Sentinel => self.buffer.cursor,
        }
    }

    /// The frame that the parsing task takes out of the buffer.
    pub open spec fn frame(self) -> Seq<u8> {
        self.buffer.bytes.take(self.frame_len() as int)
    }

    /// The state that one run of the parsing task leaves behind, whatever the
    /// buffer held: the buffer as at system start, nothing unread, no run
    /// pending.
    pub open spec fn after_parse(self) -> ReceiverModel {
        ReceiverModel {
            buffer: BufferModel::fresh(self.buffer.bytes.len()),
            pending: false,
            unread: false,
            ..self
        }
    }
}

/// Each byte read as the character of the same code.
pub open spec fn as_chars(bytes: Seq<u8>) -> Seq<char> {
    Seq::new(bytes.len(), |i: int| bytes[i] as char)
}

/// What the parsing task emits for a work buffer: its bytes before the first
/// zero byte, as characters.
pub open spec fn text_of(work: Seq<u8>) -> Seq<char> {
    as_chars(work.take(first_zero(work) as int))
}

/// The shared receive state: the frame buffer of capacity `N`, the framing
/// policy it is run under, whether a run of the parsing task is pending, and
/// whether a byte came since the last one.
pub struct Receiver<const N: usize> {
    buffer: FrameBuffer<N>,
    framing: Framing,
    pending: bool,
    unread: bool,
}

impl<const N: usize> View for Receiver<N> {
    type V = ReceiverModel;

    closed spec fn view(&self) -> ReceiverModel {
        ReceiverModel {
            buffer: self.buffer@,
            framing: self.framing,
            pending: self.pending,
            unread: self.unread,
        }
    }
}

impl<const N: usize> Receiver<N> {
    /// What holds of every receiver that executable code can hold: the model
    /// is well formed and its storage has `N` bytes.
    #[verifier::type_invariant]
    pub open spec fn inv(self) -> bool {
        self@.wf() && self@.buffer.bytes.len() == N
    }

    /// The receiver at system start: an all-zero buffer, cursor at the start,
    /// nothing unread, no run of the parsing task pending.
    pub fn new(framing: Framing) -> (receiver: Self)
        requires
            0 < N,
            framing.fits(N as nat),
        ensures
            receiver@ == ReceiverModel::fresh(N as nat, framing),
    {
        Receiver { buffer: FrameBuffer::new(), framing, pending: false, unread: false }
    }

    /// The framing policy that the receiver is run under.
    pub fn framing(&self) -> (framing: Framing)
        ensures
            framing == self@.framing,
            framing.fits(N as nat),
    {
        proof {
            use_type_invariant(self);
        }
        self.framing
    }

    /// Whether a run of the parsing task was requested and has not started.
    pub fn is_pending(&self) -> (pending: bool)
        ensures
            pending == self@.pending,
    {
        self.pending
    }

    /// Whether a byte came since the last run of the parsing task.
    pub fn has_unread(&self) -> (unread: bool)
        ensures
            unread == self@.unread,
    {
        self.unread
    }

    /// The frame buffer, to look at.
    pub fn buffer(&self) -> (buffer: &FrameBuffer<N>)
        ensures
            buffer@ == self@.buffer,
    {
        &self.buffer
    }

    /// Takes one received byte. Returns whether a run of the parsing task is
    /// to be requested: a frame became complete and no run was pending.
    pub fn accept(&mut self, byte: u8) -> (dispatch: bool)
        ensures
            final(self)@ == old(self)@.accept(byte),
            final(self)@.buffer.bytes == old(self)@.buffer.bytes.update(
                old(self)@.buffer.cursor as int,
                byte,
            ),
            final(self)@.buffer.cursor == if old(self)@.buffer.cursor + 1 == N {
                0
            } else {
                old(self)@.buffer.cursor + 1
            },
            final(self)@.pending == (old(self)@.pending || old(self)@.next_completes()),
            final(self)@.unread,
            dispatch == (!old(self)@.pending && old(self)@.next_completes()),
    {
        proof {
            use_type_invariant(&*self);
            use_type_invariant(&self.buffer);
        }
        let complete = match self.framing {
            Framing::FixedSize(size) => self.buffer.cursor() + 1 == size,
            Framing::Sentinel => false,
        };
        self.buffer.push(byte);
        let dispatch = complete && !self.pending;
        self.pending = self.pending || complete;
        self.unread = true;
        dispatch
    }

    /// Takes the byte source's report that it is empty. Returns whether a run
    /// of the parsing task is to be requested: a frame became complete and no
    /// run was pending.
    pub fn source_empty(&mut self) -> (dispatch: bool)
        ensures
            final(self)@ == old(self)@.source_empty(),
            dispatch == (!old(self)@.pending && final(self)@.pending),
    {
        proof {
            use_type_invariant(&*self);
        }
        let complete = match self.framing {
            Framing::FixedSize(_) => false,
            Framing::Sentinel => self.unread,
        };
        let dispatch = complete && !self.pending;
        self.pending = self.pending || complete;
        dispatch
    }

    /// The critical section of the parsing task: moves the frame into
    /// `output` with zeros behind it, clears the whole buffer, resets the
    /// cursor and marks the requested run as started. Returns the frame's
    /// length. Whatever the buffer and `output` held, the buffer is left as
    /// at system start and `output` holds the frame alone.
    pub fn take_frame(&mut self, output: &mut [u8; N]) -> (count: usize)
        ensures
            count == old(self)@.frame_len(),
            count <= N,
            final(self)@ == old(self)@.after_parse(),
            final(self)@.buffer == BufferModel::fresh(N as nat),
            final(output)@ == padded(old(self)@.frame(), N as nat),
    {
        proof {
            use_type_invariant(&*self);
            use_type_invariant(&self.buffer);
        }
        let count = match self.framing {
            Framing::FixedSize(_) => self.buffer.take_until_zero(output),
            Framing::Sentinel => self.buffer.take_to_cursor(output),
        };
        self.pending = false;
        self.unread = false;
        count
    }
}

/// The characters that the parsing task emits for its work buffer: one for
/// each byte before the first zero byte.
pub fn emitted_text<const N: usize>(work: &[u8; N]) -> (text: Vec<char>)
    ensures
        text@ == text_of(work@),
{
    let mut text: Vec<char> = Vec::new();
    let mut i: usize = 0;
    while i < N && work[i] != 0
        invariant
            i <= N,
            text@.len() == i,
            forall|j: int| 0 <= j < i ==> work@[j] != 0,
            forall|j: int| 0 <= j < i ==> text@[j] == work@[j] as char,
        decreases N - i,
    {
        text.push(work[i] as char);
        i = i + 1;
    }
    proof {
        lemma_first_zero_unique(work@, i as nat);
        assert(text@ =~= text_of(work@));
    }
    text
}

/// The ingestion handler: one invocation, with the bytes that the byte source
/// yielded before it reported empty. Every byte is stored under the cursor,
/// which advances with wrap; the completion test of the framing policy is
/// applied; and the result says whether a run of the parsing task is to be
/// requested: a frame became complete and no run was pending. So at most
/// one request is made while a run is pending.
pub fn lpuart2_interrupt<const N: usize>(receiver: &mut Receiver<N>, drained: &[u8]) -> (dispatch:
    bool)
    ensures
        final(receiver)@ == old(receiver)@.handle(drained@),
        final(receiver)@.buffer == old(receiver)@.buffer.store_all(drained@),
        final(receiver)@.buffer.cursor == (old(receiver)@.buffer.cursor + drained@.len()) as int
            % (N as int),
        final(receiver)@.unread == (old(receiver)@.unread || drained@.len() > 0),
        final(receiver)@.pending == (old(receiver)@.pending || old(receiver)@.completes(
            drained@.len(),
        )),
        dispatch == old(receiver)@.requests(drained@.len()),
{
    proof {
        use_type_invariant(&*receiver);
        lemma_handle(receiver@, drained@);
    }
    let mut dispatch = false;
    let mut i: usize = 0;
    while i < drained.len()
        invariant
            i <= drained@.len(),
            receiver@ == old(receiver)@.accept_all(drained@.take(i as int)),
            old(receiver)@.pending ==> receiver@.pending,
            dispatch == (!old(receiver)@.pending && receiver@.pending),
        decreases drained@.len() - i,
    {
        let requested = receiver.accept(drained[i]);
        dispatch = dispatch || requested;
        proof {
            assert(drained@.take(i + 1).drop_last() =~= drained@.take(i as int));
        }
        i = i + 1;
    }
    proof {
        assert(drained@.take(i as int) =~= drained@);
    }
    let requested = receiver.source_empty();
    dispatch || requested
}

/// The parsing task: takes the completed frame out of the shared buffer into
/// the task's own work buffer, clears the shared buffer, and returns the
/// characters to emit to the diagnostic sink: the frame up to its first zero
/// byte. Whatever the shared buffer and the work buffer held before, the
/// shared buffer is left all zero with the cursor at the start, and the work
/// buffer and the text hold the frame alone.
pub fn parse_message<const N: usize>(receiver: &mut Receiver<N>, output: &mut [u8; N]) -> (text:
    Vec<char>)
    ensures
        final(receiver)@ == old(receiver)@.after_parse(),
        final(receiver)@.buffer == BufferModel::fresh(N as nat),
        final(output)@ == padded(old(receiver)@.frame(), N as nat),
        text@ == text_of(old(receiver)@.frame()),
{
    proof {
        use_type_invariant(&*receiver);
    }
    let count: usize = receiver.take_frame(output);
    proof {
        assert(old(receiver)@.frame().len() == count);
        lemma_first_zero_of_padded(old(receiver)@.frame(), N as nat);
    }
    emitted_text(output)
}

} // verus!
