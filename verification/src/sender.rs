//! The outbound sender: turns a text command into the bytes that go to the
//! line, and decides, poll by poll, when each byte is written.
//!
//! Writing a byte and reading the transmit-ready flag are the caller's
//! business. The caller polls the flag, hands the outcome to `poll`, and
//! performs the action that comes back, until the transmission is finished.
//! It holds the transmit side for itself for that whole time.

use crate::zero_scan::{first_zero, lemma_first_zero, lemma_first_zero_unique, zero_free};
use vstd::prelude::*;

verus! {

/// The low eight bits of a character's code.
pub open spec fn low_byte(c: char) -> u8 {
    (c as u32 % 256) as u8
}

/// Each character of `text` cut down to its low eight bits.
pub open spec fn truncated(text: Seq<char>) -> Seq<u8> {
    Seq::new(text.len(), |i: int| low_byte(text[i]))
}

/// The bytes that are written for `text`: its characters cut down to eight
/// bits, up to the first that is zero or to the end of the text.
pub open spec fn wire_bytes(text: Seq<char>) -> Seq<u8> {
    truncated(text).take(first_zero(truncated(text)) as int)
}

/// What the sender asks of its caller after one poll of the transmit-ready
/// flag.
#[derive(Clone, Copy, Debug, PartialEq, Eq, Structural)]
pub enum LineAction {
    /// The line is busy: poll again.
    Spin,
    /// The line is ready: write this byte, then poll again.
    Write(u8),
    /// Every byte was written: stop.
    Finished,
}

/// Mathematical model of a transmission: the bytes to write and how many of
/// them were written.
pub struct TransmissionModel {
    pub message: Seq<u8>,
    pub sent: nat,
}

impl TransmissionModel {
    /// No more bytes were written than there are.
    pub open spec fn wf(self) -> bool {
        self.sent <= self.message.len()
    }

    /// Every byte was written.
    pub open spec fn finished(self) -> bool {
        self.sent >= self.message.len()
    }

    /// What is asked of the caller after a poll that found the line ready or
    /// not.
    pub open spec fn action(self, ready: bool) -> LineAction {
        if self.finished() {
            LineAction::Finished
        } else if ready {
            LineAction::Write(self.message[self.sent as int])
        } else {
            LineAction::Spin
        }
    }

    /// The transmission after that poll.
    pub open spec fn polled(self, ready: bool) -> TransmissionModel {
        if !self.finished() && ready {
            TransmissionModel { sent: self.sent + 1, ..self }
        } else {
            self
        }
    }

    /// The transmission after a run of polls, first to last.
    pub open spec fn polled_all(self, polls: Seq<bool>) -> TransmissionModel
        decreases polls.len(),
    {
        if polls.len() == 0 {
            self
        } else {
            self.polled_all(polls.drop_last()).polled(polls.last())
        }
    }

    /// The bytes written in the course of a run of polls, in order.
    pub open spec fn written(self, polls: Seq<bool>) -> Seq<u8>
        decreases polls.len(),
    {
        if polls.len() == 0 {
            Seq::empty()
        } else {
            let before = self.written(polls.drop_last());
            match self.polled_all(polls.drop_last()).action(polls.last()) {
                LineAction::Write(byte) => before.push(byte),
                _ => before,
            }
        }
    }
}

/// How many polls of a run found the line ready.
pub open spec fn ready_count(polls: Seq<bool>) -> nat
    decreases polls.len(),
{
    if polls.len() == 0 {
        0
    } else {
        ready_count(polls.drop_last()) + if polls.last() {
            1nat
        } else {
            0nat
        }
    }
}

/// A transmission in progress: the bytes of one command and how many of them
/// were written.
pub struct Transmission {
    message: Vec<u8>,
    sent: usize,
}

impl View for Transmission {
    type V = TransmissionModel;

    closed spec fn view(&self) -> TransmissionModel {
        TransmissionModel { message: self.message@, sent: self.sent as nat }
    }
}

impl Transmission {
    /// What holds of every transmission that executable code can hold.
    #[verifier::type_invariant]
    pub open spec fn inv(self) -> bool {
        self@.wf()
    }

    /// Whether every byte was written.
    pub fn is_finished(&self) -> (finished: bool)
        ensures
            finished == self@.finished(),
    {
        proof {
            use_type_invariant(self);
        }
        self.sent >= self.message.len()
    }

    /// The bytes of the command, written or not.
    pub fn message(&self) -> (message: &Vec<u8>)
        ensures
            message@ == self@.message,
    {
        &self.message
    }

    /// How many bytes were written.
    pub fn sent(&self) -> (sent: usize)
        ensures
            sent == self@.sent,
            sent <= self@.message.len(),
    {
        proof {
            use_type_invariant(self);
        }
        self.sent
    }

    /// Takes the outcome of one poll of the transmit-ready flag and says what
    /// to do: nothing more once every byte was written; else write the next
    /// byte if the line was ready, and poll again if it was not. A byte is
    /// told to be written only on a poll that found the line ready.
    pub fn poll(&mut self, transmit_ready: bool) -> (action: LineAction)
        ensures
            action == old(self)@.action(transmit_ready),
            final(self)@ == old(self)@.polled(transmit_ready),
    {
        proof {
            use_type_invariant(&*self);
        }
        if self.sent >= self.message.len() {
            LineAction::Finished
        } else if transmit_ready {
            let byte: u8 = self.message[self.sent];
            self.sent = self.sent + 1;
            LineAction::Write(byte)
        } else {
            LineAction::Spin
        }
    }
}

/// The bytes that are written for `word`: its characters cut down to eight
/// bits, up to the first that is zero or to the end of the text.
pub fn outbound_bytes(word: &str) -> (bytes: Vec<u8>)
    ensures
        bytes@ == wire_bytes(word@),
{
    let length: usize = word.unicode_len();
    let mut bytes: Vec<u8> = Vec::new();
    let mut i: usize = 0;
    while i < length
        invariant
            length == word@.len(),
            i <= length,
            bytes@.len() == i,
            forall|j: int| 0 <= j < i ==> bytes@[j] == truncated(word@)[j],
            zero_free(bytes@),
        ensures
            i == length || truncated(word@)[i as int] == 0,
        decreases length - i,
    {
        let code: u32 = word.get_char(i) as u32;
        let byte: u8 = (code % 256) as u8;
        if byte == 0 {
            break;
        }
        bytes.push(byte);
        i = i + 1;
    }
    proof {
        let all = truncated(word@);
        assert(all.take(i as int) =~= bytes@);
        lemma_first_zero_unique(all, i as nat);
    }
    bytes
}

/// The outbound sender: begins the transmission of `word`. Nothing is written
/// yet; the bytes to write are those of `wire_bytes`, none of them zero, and
/// `poll` hands them out one by one as the line becomes ready.
pub fn talk_to_radio(word: &str) -> (transmission: Transmission)
    ensures
        transmission@.message == wire_bytes(word@),
        transmission@.sent == 0,
        zero_free(transmission@.message),
{
    let message = outbound_bytes(word);
    proof {
        lemma_first_zero(truncated(word@));
    }
    Transmission { message, sent: 0 }
}

} // verus!
