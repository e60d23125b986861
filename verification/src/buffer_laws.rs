//! What holds of a frame buffer after a run of bytes was stored in it.

use crate::frame_buffer::BufferModel;
use vstd::prelude::*;

verus! {

/// Advancing a wrapped position by one is advancing the position by one and
/// wrapping then.
pub proof fn lemma_wrap_step(position: int, capacity: int)
    requires
        0 < capacity,
    ensures
        (position % capacity + 1) % capacity == (position + 1) % capacity,
{
    vstd::arithmetic::div_mod::lemma_add_mod_noop_right(1, position, capacity);
}

/// Storing keeps the buffer well formed and its capacity, and leaves the
/// cursor where the run's length takes it round the storage.
pub proof fn lemma_store_all_shape(buffer: BufferModel, run: Seq<u8>)
    requires
        buffer.wf(),
    ensures
        buffer.store_all(run).wf(),
        buffer.store_all(run).bytes.len() == buffer.bytes.len(),
        buffer.store_all(run).cursor == (buffer.cursor + run.len()) as int % (
            buffer.bytes.len() as int),
    decreases run.len(),
{
    let capacity = buffer.bytes.len() as int;
    if run.len() == 0 {
        vstd::arithmetic::div_mod::lemma_small_mod(buffer.cursor, buffer.bytes.len());
    } else {
        lemma_store_all_shape(buffer, run.drop_last());
        lemma_wrap_step(buffer.cursor + run.len() - 1, capacity);
    }
}

/// A run that ends at or before the end of the storage lies in it as it
/// came, between what was there before and after; the cursor follows it, and
/// wraps to the start if the run ended exactly at the end of the storage.
pub proof fn lemma_store_all_in_place(buffer: BufferModel, run: Seq<u8>)
    requires
        buffer.wf(),
        buffer.cursor + run.len() <= buffer.bytes.len(),
    ensures
        buffer.store_all(run).bytes == buffer.content() + run + buffer.bytes.skip(
            (buffer.cursor + run.len()) as int,
        ),
        buffer.store_all(run).cursor == if buffer.cursor + run.len() == buffer.bytes.len() {
            0
        } else {
            buffer.cursor + run.len()
        },
    decreases run.len(),
{
    if run.len() > 0 {
        lemma_store_all_in_place(buffer, run.drop_last());
        if buffer.cursor + run.len() < buffer.bytes.len() {
            vstd::arithmetic::div_mod::lemma_small_mod(
                buffer.cursor + run.len(),
                buffer.bytes.len(),
            );
        }
    }
}

/// Without overrun, storing appends to the content, and a buffer that was
/// zero from its cursor on still is.
pub proof fn lemma_store_all_appends(buffer: BufferModel, run: Seq<u8>)
    requires
        buffer.wf(),
        buffer.cursor + run.len() < buffer.bytes.len(),
    ensures
        buffer.store_all(run).content() == buffer.content() + run,
        buffer.tidy() ==> buffer.store_all(run).tidy(),
{
    lemma_store_all_in_place(buffer, run);
}

/// The overrun boundary: a run that fills the storage exactly to its end
/// leaves the cursor at the start, as if nothing were stored, with the bytes
/// still in place.
pub proof fn lemma_capacity_reached(buffer: BufferModel, run: Seq<u8>)
    requires
        buffer.wf(),
        buffer.cursor + run.len() == buffer.bytes.len(),
    ensures
        buffer.store_all(run).cursor == 0,
        buffer.store_all(run).bytes == buffer.content() + run,
        buffer.store_all(run).content() == Seq::<u8>::empty(),
{
    lemma_store_all_in_place(buffer, run);
}

/// A buffer as it is at system start is well formed, clear, and zero from
/// its cursor on.
pub proof fn lemma_fresh(capacity: nat)
    requires
        0 < capacity,
    ensures
        BufferModel::fresh(capacity).wf(),
        BufferModel::fresh(capacity).is_clear(),
        BufferModel::fresh(capacity).tidy(),
        BufferModel::fresh(capacity).bytes.len() == capacity,
        BufferModel::fresh(capacity).content() == Seq::<u8>::empty(),
{
}

} // verus!
