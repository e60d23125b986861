//! What holds of the receive path: how bursts compose, when a frame is
//! complete, what the parsing task observes and what it leaves behind.

use crate::buffer_laws::{
    lemma_capacity_reached,
    lemma_fresh,
    lemma_store_all_appends,
    lemma_store_all_in_place,
    lemma_store_all_shape,
};
use crate::frame_buffer::BufferModel;
use crate::receiver::{Framing, ReceiverModel};
use crate::zero_scan::{
    first_zero,
    lemma_first_zero,
    lemma_first_zero_of_padded,
    lemma_first_zero_padded,
    lemma_first_zero_take,
    lemma_first_zero_unique,
    padded,
    zero_free,
};
use vstd::prelude::*;

verus! {

/// Taking bytes in changes the buffer as storing them does, whatever the
/// framing; it keeps the framing, a pending run stays pending, and bytes are
/// unread after it if they were before or any came.
pub proof fn lemma_accept_all_buffer(receiver: ReceiverModel, run: Seq<u8>)
    ensures
        receiver.accept_all(run).buffer == receiver.buffer.store_all(run),
        receiver.accept_all(run).framing == receiver.framing,
        receiver.accept_all(run).unread == (receiver.unread || run.len() > 0),
        receiver.pending ==> receiver.accept_all(run).pending,
    decreases run.len(),
{
    if run.len() > 0 {
        lemma_accept_all_buffer(receiver, run.drop_last());
    }
}

/// Taking a run of bytes in is taking its parts in one after the other.
pub proof fn lemma_accept_all_concat(receiver: ReceiverModel, first: Seq<u8>, second: Seq<u8>)
    ensures
        receiver.accept_all(first + second) == receiver.accept_all(first).accept_all(second),
    decreases second.len(),
{
    if second.len() > 0 {
        lemma_accept_all_concat(receiver, first, second.drop_last());
        assert((first + second).drop_last() =~= first + second.drop_last());
    } else {
        assert(first + second =~= first);
    }
}

/// Under fixed-size framing, a run of the parsing task is pending after a
/// run of bytes exactly if one was pending before or one of the bytes brought
/// the count of bytes in the buffer to the configured size. The byte source
/// running empty changes nothing.
pub proof fn lemma_fixed_size_pending(receiver: ReceiverModel, run: Seq<u8>)
    requires
        receiver.buffer.wf(),
        receiver.framing is FixedSize,
    ensures
        receiver.accept_all(run).pending == (receiver.pending || receiver.completes_within(
            run.len(),
        )),
        receiver.handle(run) == receiver.accept_all(run),
    decreases run.len(),
{
    lemma_accept_all_buffer(receiver, run);
    if run.len() > 0 {
        let shorter = run.drop_last();
        let last = run.len() as int;
        lemma_fixed_size_pending(receiver, shorter);
        lemma_accept_all_buffer(receiver, shorter);
        lemma_store_all_shape(receiver.buffer, shorter);
        // The last byte completes a frame exactly if the cursor stood one
        // short of the configured size when it came.
        assert(receiver.accept_all(run).pending == (receiver.accept_all(shorter).pending
            || receiver.completes_at(last)));
        if receiver.completes_within(run.len()) {
            let count = choose|count: int|
                0 < count <= run.len() && #[trigger] receiver.completes_at(count);
            assert(count == last || receiver.completes_within(shorter.len()));
        }
    }
}

/// Under sentinel framing, taking bytes in requests nothing: only the byte
/// source running empty does.
pub proof fn lemma_sentinel_accepts_quietly(receiver: ReceiverModel, run: Seq<u8>)
    requires
        receiver.framing is Sentinel,
    ensures
        receiver.accept_all(run).pending == receiver.pending,
    decreases run.len(),
{
    if run.len() > 0 {
        lemma_sentinel_accepts_quietly(receiver, run.drop_last());
        lemma_accept_all_buffer(receiver, run.drop_last());
    }
}

/// One invocation of the handler in closed form: the buffer is as after
/// storing the run, the cursor stands where the run's length takes it round
/// the storage, and a run of the parsing task is pending exactly if one was
/// before or a frame became complete. Which bytes came plays no part in
/// that: only how many.
pub proof fn lemma_handle(receiver: ReceiverModel, run: Seq<u8>)
    requires
        receiver.wf(),
    ensures
        receiver.handle(run).wf(),
        receiver.handle(run).framing == receiver.framing,
        receiver.handle(run).buffer == receiver.buffer.store_all(run),
        receiver.handle(run).buffer.bytes.len() == receiver.buffer.bytes.len(),
        receiver.handle(run).buffer.cursor == (receiver.buffer.cursor + run.len()) as int % (
            receiver.buffer.bytes.len() as int),
        receiver.handle(run).unread == (receiver.unread || run.len() > 0),
        receiver.handle(run).pending == (receiver.pending || receiver.completes(run.len())),
{
    lemma_accept_all_buffer(receiver, run);
    lemma_store_all_shape(receiver.buffer, run);
    match receiver.framing {
        Framing::FixedSize(_) => {
            lemma_fixed_size_pending(receiver, run);
        },
        Framing::Sentinel => {
            lemma_sentinel_accepts_quietly(receiver, run);
        },
    }
}

/// The receive state does not tell bursts from single bytes: after two
/// invocations of the handler it is as after one that drained both runs
/// together, requests of the parsing task included.
pub proof fn lemma_bursts_compose(receiver: ReceiverModel, first: Seq<u8>, second: Seq<u8>)
    ensures
        receiver.handle(first).handle(second) == receiver.handle(first + second),
        receiver.handle(first + second).buffer == receiver.buffer.store_all(first + second),
{
    let between = receiver.accept_all(first);
    lemma_accept_all_concat(receiver, first, second);
    lemma_accept_all_buffer(receiver, first + second);
    lemma_accept_all_buffer(receiver, first);
    lemma_accept_all_buffer(between, second);
    lemma_accept_all_buffer(between.source_empty(), second);
    match receiver.framing {
        Framing::FixedSize(_) => {
            assert(between.source_empty() == between);
        },
        Framing::Sentinel => {
            lemma_sentinel_accepts_quietly(between, second);
            lemma_sentinel_accepts_quietly(between.source_empty(), second);
        },
    }
}

/// Requests of the parsing task do not tell bursts from single bytes either:
/// two invocations of the handler make a request exactly if one that drained
/// both runs together makes one, and they never make two.
pub proof fn lemma_requests_compose(receiver: ReceiverModel, first: Seq<u8>, second: Seq<u8>)
    requires
        receiver.wf(),
    ensures
        receiver.requests((first + second).len()) == (receiver.requests(first.len())
            || receiver.handle(first).requests(second.len())),
        !(receiver.requests(first.len()) && receiver.handle(first).requests(second.len())),
{
    lemma_bursts_compose(receiver, first, second);
    lemma_handle(receiver, first);
    lemma_handle(receiver.handle(first), second);
    lemma_handle(receiver, first + second);
}

/// What the parsing task observes of bytes that came without overrun: under
/// sentinel framing all that waits in the buffer; under fixed-size framing,
/// in a buffer that was zero from its cursor on, the same up to its first
/// zero byte.
pub proof fn lemma_frame_observed(receiver: ReceiverModel, run: Seq<u8>)
    requires
        receiver.wf(),
        receiver.buffer.cursor + run.len() < receiver.buffer.bytes.len(),
        receiver.framing is FixedSize ==> receiver.buffer.tidy(),
    ensures
        receiver.handle(run).buffer.content() == receiver.buffer.content() + run,
        receiver.buffer.tidy() ==> receiver.handle(run).buffer.tidy(),
        receiver.handle(run).frame() == match receiver.framing {
            Framing::FixedSize(_) => (receiver.buffer.content() + run).take(
                first_zero(receiver.buffer.content() + run) as int,
            ),
            Framing::Sentinel => receiver.buffer.content() + run,
        },
{
    let after = receiver.handle(run);
    let waiting = receiver.buffer.content() + run;
    lemma_accept_all_buffer(receiver, run);
    lemma_store_all_appends(receiver.buffer, run);
    lemma_store_all_in_place(receiver.buffer, run);
    assert(after.buffer.content() == waiting);
    if receiver.framing is FixedSize {
        lemma_first_zero_padded(after.buffer.bytes, after.buffer.cursor);
        lemma_first_zero(waiting);
        assert(after.frame() =~= waiting.take(first_zero(waiting) as int));
    }
}

/// The overrun boundary under sentinel framing: when a burst fills the
/// storage exactly to its end before the byte source runs empty, the cursor
/// is back at the start. A run of the parsing task is requested, since bytes
/// came, but it finds an empty frame: the bytes are lost to it, though they
/// lie in the storage until it clears them.
pub proof fn lemma_sentinel_capacity_reached(receiver: ReceiverModel, run: Seq<u8>)
    requires
        receiver.wf(),
        receiver.framing is Sentinel,
        receiver.buffer.cursor + run.len() == receiver.buffer.bytes.len(),
    ensures
        receiver.handle(run).buffer.cursor == 0,
        receiver.handle(run).buffer.bytes == receiver.buffer.content() + run,
        receiver.handle(run).pending,
        receiver.handle(run).frame() == Seq::<u8>::empty(),
{
    lemma_handle(receiver, run);
    lemma_capacity_reached(receiver.buffer, run);
    assert(receiver.handle(run).frame() =~= Seq::<u8>::empty());
}

/// Fixed-size framing from system start: no run of the parsing task is
/// requested before the byte that brings the count to the configured size is
/// in; one is requested when it is; and what the parsing task then observes
/// is the stream up to its first zero byte or to the configured size,
/// whichever comes first. The size may be the whole capacity.
pub proof fn lemma_fixed_size_frame(capacity: nat, size: usize, stream: Seq<u8>, count: nat)
    requires
        0 < size <= capacity,
        size <= stream.len(),
        count <= size,
    ensures
        ReceiverModel::fresh(capacity, Framing::FixedSize(size)).handle(
            stream.take(count as int),
        ).pending == (count == size),
        ReceiverModel::fresh(capacity, Framing::FixedSize(size)).handle(
            stream.take(size as int),
        ).frame() == stream.take(
            if first_zero(stream) < size {
                first_zero(stream) as int
            } else {
                size as int
            },
        ),
{
    let start = ReceiverModel::fresh(capacity, Framing::FixedSize(size));
    let head = stream.take(count as int);
    lemma_fresh(capacity);
    lemma_fixed_size_pending(start, head);
    if count == size {
        vstd::arithmetic::div_mod::lemma_small_mod((size - 1) as nat, capacity);
        assert(start.completes_at(size as int));
    }
    if start.completes_within(head.len()) {
        let reached = choose|reached: int|
            0 < reached <= head.len() && #[trigger] start.completes_at(reached);
        vstd::arithmetic::div_mod::lemma_small_mod((reached - 1) as nat, capacity);
    }
    let full = stream.take(size as int);
    let after = start.handle(full);
    lemma_accept_all_buffer(start, full);
    lemma_store_all_in_place(start.buffer, full);
    assert(after.buffer.bytes =~= padded(full, capacity));
    lemma_first_zero_of_padded(full, capacity);
    lemma_first_zero_take(stream, size as nat);
    assert(full.take(first_zero(full) as int) =~= stream.take(first_zero(full) as int));
}

/// A run of the parsing task leaves the buffer all zero and the cursor at the
/// start, whatever the buffer held, with nothing unread and no run pending; a
/// second run right after it finds an empty frame and changes nothing.
pub proof fn lemma_parse_idempotent(receiver: ReceiverModel)
    requires
        receiver.wf(),
    ensures
        receiver.after_parse().wf(),
        receiver.after_parse().buffer == BufferModel::fresh(receiver.buffer.bytes.len()),
        receiver.after_parse().buffer.is_clear(),
        !receiver.after_parse().pending,
        !receiver.after_parse().unread,
        receiver.after_parse().frame() == Seq::<u8>::empty(),
        receiver.after_parse().after_parse() == receiver.after_parse(),
{
    let once = receiver.after_parse();
    lemma_fresh(receiver.buffer.bytes.len());
    assert(once.buffer.bytes[0] == 0);
    assert(once.frame_len() == 0);
    assert(once.frame() =~= Seq::<u8>::empty());
}

/// Under sentinel framing a run of the parsing task takes all that waits
/// before the cursor. So it does under fixed-size framing if the buffer is
/// zero from its cursor on and no zero byte is among what waits.
pub proof fn lemma_parse_takes_whole(receiver: ReceiverModel)
    requires
        receiver.wf(),
        receiver.framing is FixedSize ==> receiver.buffer.tidy() && zero_free(
            receiver.buffer.content(),
        ),
    ensures
        receiver.frame_len() == receiver.buffer.cursor,
        receiver.frame() == receiver.buffer.content(),
{
    if receiver.framing is FixedSize {
        lemma_first_zero_unique(receiver.buffer.bytes, receiver.buffer.cursor);
    }
}

} // verus!
