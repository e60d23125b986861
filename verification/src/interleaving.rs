//! Invocations of the ingestion handler interleaved with runs of the parsing
//! task.
//!
//! Under the locking discipline each of the two runs its critical section
//! whole, so an execution of the receive path is a sequence of events, each
//! one invocation of the handler or one run of the parsing task, in whatever
//! order the scheduler brings them.

use crate::buffer_laws::{lemma_fresh, lemma_store_all_appends};
use crate::receiver::{Framing, ReceiverModel};
use crate::receiver_laws::{
    lemma_accept_all_buffer,
    lemma_bursts_compose,
    lemma_fixed_size_frame,
    lemma_handle,
    lemma_parse_idempotent,
    lemma_parse_takes_whole,
};
use crate::zero_scan::{first_zero, lemma_zero_free_concat, zero_free};
use vstd::prelude::*;

verus! {

/// One critical section of the receive path.
pub enum Event {
    /// The ingestion handler ran and drained these bytes.
    Deliver(Seq<u8>),
    /// The parsing task ran.
    Parse,
}

/// No run of the parsing task is among `events`.
pub open spec fn only_deliveries(events: Seq<Event>) -> bool {
    forall|i: int| 0 <= i < events.len() ==> events[i] is Deliver
}

/// All bytes that the handler drained in the course of `events`, in order.
pub open spec fn delivered(events: Seq<Event>) -> Seq<u8>
    decreases events.len(),
{
    if events.len() == 0 {
        Seq::empty()
    } else {
        match events.last() {
            Event::Deliver(run) => delivered(events.drop_last()) + run,
            Event::Parse => delivered(events.drop_last()),
        }
    }
}

impl ReceiverModel {
    /// The state after one event.
    pub open spec fn after_event(self, event: Event) -> ReceiverModel {
        match event {
            Event::Deliver(run) => self.handle(run),
            Event::Parse => self.after_parse(),
        }
    }

    /// The state after a sequence of events.
    pub open spec fn after_events(self, events: Seq<Event>) -> ReceiverModel
        decreases events.len(),
    {
        if events.len() == 0 {
            self
        } else {
            self.after_events(events.drop_last()).after_event(events.last())
        }
    }

    /// All frames that the parsing task took in the course of `events`, one
    /// after the other.
    pub open spec fn parsed(self, events: Seq<Event>) -> Seq<u8>
        decreases events.len(),
    {
        if events.len() == 0 {
            Seq::empty()
        } else {
            let before = self.parsed(events.drop_last());
            match events.last() {
                Event::Deliver(_) => before,
                Event::Parse => before + self.after_events(events.drop_last()).frame(),
            }
        }
    }

    /// Every run of the parsing task in the course of `events` takes exactly
    /// what waits in the buffer: the frame ends at the cursor.
    pub open spec fn parses_whole(self, events: Seq<Event>) -> bool
        decreases events.len(),
    {
        if events.len() == 0 {
            true
        } else {
            let before = self.after_events(events.drop_last());
            &&& self.parses_whole(events.drop_last())
            &&& (events.last() is Parse ==> before.frame_len() == before.buffer.cursor)
        }
    }

    /// No invocation of the handler in the course of `events` takes the
    /// cursor to the end of the storage: the parsing task always ran in time.
    pub open spec fn never_overrun(self, events: Seq<Event>) -> bool
        decreases events.len(),
    {
        if events.len() == 0 {
            true
        } else {
            let before = self.after_events(events.drop_last());
            &&& self.never_overrun(events.drop_last())
            &&& match events.last() {
                Event::Deliver(run) => before.buffer.cursor + run.len() < before.buffer.bytes.len(),
                Event::Parse => true,
            }
        }
    }
}

/// The receive state does not tell bursts from single bytes: after any
/// number of invocations of the handler the buffer is as after storing all
/// their bytes, and the whole state, requests of the parsing task included,
/// is as after one invocation that drained all of them together.
pub proof fn lemma_bursts_flatten(receiver: ReceiverModel, bursts: Seq<Event>)
    requires
        only_deliveries(bursts),
    ensures
        receiver.after_events(bursts).buffer == receiver.buffer.store_all(delivered(bursts)),
        bursts.len() > 0 || receiver.framing is FixedSize ==> receiver.after_events(bursts)
            == receiver.handle(delivered(bursts)),
    decreases bursts.len(),
{
    lemma_accept_all_buffer(receiver, delivered(bursts));
    if bursts.len() > 0 {
        let earlier = bursts.drop_last();
        let run = bursts.last()->Deliver_0;
        lemma_bursts_flatten(receiver, earlier);
        if earlier.len() == 0 {
            assert(delivered(bursts) =~= run);
        } else {
            lemma_bursts_compose(receiver, delivered(earlier), run);
        }
    }
}

/// Fixed-size framing from system start, bytes coming one at a time or in
/// bursts of any lengths: no run of the parsing task is requested before the
/// byte that brings the count to the configured size is in; one is requested
/// when it is; and what the parsing task then observes is the stream up to
/// its first zero byte or to the configured size, whichever comes first.
pub proof fn lemma_fixed_size_frame_in_bursts(
    capacity: nat,
    size: usize,
    stream: Seq<u8>,
    bursts: Seq<Event>,
)
    requires
        0 < size <= capacity,
        size <= stream.len(),
        only_deliveries(bursts),
        delivered(bursts).len() <= size,
        delivered(bursts) == stream.take(delivered(bursts).len() as int),
    ensures
        ReceiverModel::fresh(capacity, Framing::FixedSize(size)).after_events(bursts).pending
            == (delivered(bursts).len() == size),
        delivered(bursts).len() == size ==> ReceiverModel::fresh(
            capacity,
            Framing::FixedSize(size),
        ).after_events(bursts).frame() == stream.take(
            if first_zero(stream) < size {
                first_zero(stream) as int
            } else {
                size as int
            },
        ),
{
    let start = ReceiverModel::fresh(capacity, Framing::FixedSize(size));
    lemma_bursts_flatten(start, bursts);
    lemma_fixed_size_frame(capacity, size, stream, delivered(bursts).len());
}

/// No byte is lost and none comes twice: however invocations of the handler
/// and runs of the parsing task interleave, the frames that the parsing task
/// took, followed by what still waits in the buffer, are what waited at the
/// start followed by what the handler drained. This holds as long as the
/// buffer is never overrun and every run of the parsing task takes exactly
/// what waits, which under sentinel framing every run does.
pub proof fn lemma_nothing_lost_or_duplicated(receiver: ReceiverModel, events: Seq<Event>)
    requires
        receiver.wf(),
        receiver.never_overrun(events),
        receiver.framing is FixedSize ==> receiver.parses_whole(events),
    ensures
        receiver.parsed(events) + receiver.after_events(events).buffer.content()
            == receiver.buffer.content() + delivered(events),
        receiver.after_events(events).wf(),
        receiver.after_events(events).framing == receiver.framing,
        receiver.after_events(events).buffer.bytes.len() == receiver.buffer.bytes.len(),
    decreases events.len(),
{
    let waiting = receiver.buffer.content();
    if events.len() > 0 {
        let earlier = events.drop_last();
        let before = receiver.after_events(earlier);
        let after = receiver.after_events(events);
        lemma_nothing_lost_or_duplicated(receiver, earlier);
        match events.last() {
            Event::Deliver(run) => {
                lemma_handle(before, run);
                lemma_store_all_appends(before.buffer, run);
                assert((waiting + delivered(earlier)) + run =~= waiting + (delivered(earlier)
                    + run));
            },
            Event::Parse => {
                lemma_parse_idempotent(before);
                assert(before.frame() == before.buffer.content());
                assert(after.buffer.content() =~= Seq::<u8>::empty());
                assert(receiver.parsed(events) + after.buffer.content() =~= waiting + delivered(
                    events,
                ));
            },
        }
    } else {
        assert(receiver.parsed(events) + waiting =~= waiting + delivered(events));
    }
}

/// Every run of the parsing task takes exactly what waits if the buffer was
/// zero from its cursor on at the start, is never overrun, and no zero byte
/// is among the data. The buffer then stays zero from its cursor on.
pub proof fn lemma_plain_data_parses_whole(receiver: ReceiverModel, events: Seq<Event>)
    requires
        receiver.wf(),
        receiver.buffer.tidy(),
        receiver.never_overrun(events),
        zero_free(receiver.buffer.content()),
        zero_free(delivered(events)),
    ensures
        receiver.parses_whole(events),
        receiver.after_events(events).wf(),
        receiver.after_events(events).buffer.tidy(),
        zero_free(receiver.after_events(events).buffer.content()),
    decreases events.len(),
{
    if events.len() > 0 {
        let earlier = events.drop_last();
        let before = receiver.after_events(earlier);
        match events.last() {
            Event::Deliver(run) => {
                lemma_zero_free_concat(delivered(earlier), run);
                lemma_plain_data_parses_whole(receiver, earlier);
                lemma_handle(before, run);
                lemma_store_all_appends(before.buffer, run);
                lemma_zero_free_concat(before.buffer.content(), run);
            },
            Event::Parse => {
                lemma_plain_data_parses_whole(receiver, earlier);
                lemma_parse_idempotent(before);
                lemma_parse_takes_whole(before);
                lemma_fresh(before.buffer.bytes.len());
            },
        }
    }
}

} // verus!
