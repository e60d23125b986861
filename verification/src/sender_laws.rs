//! What holds of a transmission over any run of polls, and of the radio's
//! commands on the line.

use crate::sender::{ready_count, truncated, wire_bytes, TransmissionModel};
use crate::sequencer::Command;
use crate::zero_scan::{lemma_first_zero_of_zero_free, zero_free};
use vstd::prelude::*;

verus! {

/// Over any run of polls a transmission writes its bytes in order, one for
/// each poll that found the line ready, until none is left: never a byte
/// without a ready poll before it, never a byte twice, never one skipped.
pub proof fn lemma_polls(transmission: TransmissionModel, polls: Seq<bool>)
    requires
        transmission.wf(),
    ensures
        transmission.polled_all(polls).wf(),
        transmission.polled_all(polls).message == transmission.message,
        transmission.polled_all(polls).sent == if transmission.sent + ready_count(polls)
            < transmission.message.len() {
            transmission.sent + ready_count(polls)
        } else {
            transmission.message.len()
        },
        transmission.written(polls) == transmission.message.subrange(
            transmission.sent as int,
            transmission.polled_all(polls).sent as int,
        ),
        transmission.written(polls).len() <= ready_count(polls),
    decreases polls.len(),
{
    let after = transmission.polled_all(polls);
    if polls.len() == 0 {
        assert(transmission.written(polls) =~= transmission.message.subrange(
            transmission.sent as int,
            after.sent as int,
        ));
    } else {
        lemma_polls(transmission, polls.drop_last());
        assert(transmission.written(polls) =~= transmission.message.subrange(
            transmission.sent as int,
            after.sent as int,
        ));
    }
}

/// A transmission that was begun is finished exactly when as many polls
/// found the line ready as it has bytes; all its bytes are then written.
pub proof fn lemma_finished(transmission: TransmissionModel, polls: Seq<bool>)
    requires
        transmission.wf(),
        transmission.sent == 0,
    ensures
        transmission.polled_all(polls).finished() <==> ready_count(polls)
            >= transmission.message.len(),
        transmission.polled_all(polls).finished() ==> transmission.written(polls)
            == transmission.message,
{
    lemma_polls(transmission, polls);
    if transmission.polled_all(polls).finished() {
        assert(transmission.message.subrange(0, transmission.message.len() as int)
            =~= transmission.message);
    }
}

/// Text without a character whose low eight bits are zero goes to the line
/// whole, one byte for each character.
pub proof fn lemma_wire_bytes_of_plain_text(text: Seq<char>)
    requires
        zero_free(truncated(text)),
    ensures
        wire_bytes(text) == truncated(text),
        wire_bytes(text).len() == text.len(),
{
    lemma_first_zero_of_zero_free(truncated(text));
}

/// Each command's line goes to the line whole: one byte for each character
/// of its text, then a carriage return and a line feed, none of them zero.
pub proof fn lemma_command_on_the_line(command: Command)
    ensures
        zero_free(wire_bytes(command.line_model())),
        wire_bytes(command.line_model()) == truncated(command.line_model()),
        wire_bytes(command.line_model()).len() == command.text_model().len() + 2,
        command.text_model().len() == match command {
            Command::NetworkId => 14nat,
            Command::Address => 12nat,
            Command::Parameter => 20nat,
        },
{
    reveal_strlit("AT+NETWORKID=2");
    reveal_strlit("AT+ADDRESS=2");
    reveal_strlit("AT+PARAMETER=8,7,4,7");
    reveal_strlit("AT+NETWORKID=2\r\n");
    reveal_strlit("AT+ADDRESS=2\r\n");
    reveal_strlit("AT+PARAMETER=8,7,4,7\r\n");
    let line = command.line_model();
    lemma_wire_bytes_of_plain_text(line);
}

} // verus!
