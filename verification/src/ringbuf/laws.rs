//! What holds of a ring buffer over several operations.
use crate::ringbuf::{
    ReadIterator, RingBuf, RingBufID, RingBufIndex, RingBufInner, RingBufSlot, WrapState,
};
use vstd::prelude::*;

verus! {

/// The buffer is never both full and empty: the reader finds a slot exactly while a value waits,
/// and the writer exactly while fewer values wait than there are slots.
pub proof fn law_occupancy<T>(ring: RingBufInner<T>)
    requires
        ring.wf(),
        ring.capacity() > 0,
    ensures
        ring@.len() <= ring.capacity(),
        ring.can_advance(false) <==> ring@.len() > 0,
        ring.can_advance(true) <==> ring@.len() < ring.capacity(),
        ring.can_advance(false) || ring.can_advance(true),
{
}

/// Whoever takes a slot leaves the buffer in order, whatever its size, with one waiting value more
/// or less.
pub proof fn law_steps_keep_order<T>(ring: RingBufInner<T>, write: bool)
    requires
        ring.wf(),
        ring.can_advance(write),
    ensures
        ring.advanced(write).wf(),
        ring.advanced(write).capacity() == ring.capacity(),
        ring.capacity() > 0 ==> ring.advanced(write)@.len() == ring@.len() + (if write {
            1int
        } else {
            -1int
        }),
{
}

/// Values leave in the order in which they wait: the `n`th slot that the reader takes holds the
/// `n`th waiting value, and the others stay.
pub proof fn law_reads_in_order<T>(ring: RingBufInner<T>, n: nat)
    requires
        ring.wf(),
        ring.capacity() > 0,
        n <= ring@.len(),
    ensures
        ring.after_reads(n).wf(),
        ring.after_reads(n).buffer == ring.buffer,
        ring.after_reads(n)@ == ring@.skip(n as int),
        n < ring@.len() ==> {
            let next = ring.after_reads(n);
            &&& next.can_advance(false)
            &&& next.buffer@[next.read_offset as int] == ring@[n as int]
        },
    decreases n,
{
    if n == 0 {
        assert(ring@.skip(0) =~= ring@);
    } else {
        let before = ring.after_reads((n - 1) as nat);
        law_reads_in_order(ring, (n - 1) as nat);
        before.lemma_advance_reader();
        assert(ring@.skip(n - 1).drop_first() =~= ring@.skip(n as int));
    }
    if n < ring@.len() {
        ring.after_reads(n).lemma_advance_reader();
    }
}

/// What is written is read: a value that the writer puts into its slot joins those that wait
/// without touching them, and it is what the reader finds once it has taken all of those.
pub proof fn law_written_value_is_read<T>(
    ring: RingBufInner<T>,
    filled: RingBufInner<T>,
    value: T,
)
    requires
        ring.wf(),
        ring.capacity() > 0,
        ring.can_advance(true),
        filled.stored(ring.advanced(true), ring.write_offset as int, value),
    ensures
        filled.wf(),
        filled@ == ring@.push(value),
        ({
            let next = filled.after_reads(ring@.len());
            &&& next.can_advance(false)
            &&& next.buffer@[next.read_offset as int] == value
            &&& next.advanced(false)@ == Seq::<T>::empty()
        }),
{
    let unfilled = RingBufInner { buffer: filled.buffer, ..ring };
    unfilled.lemma_store(ring, value);
    unfilled.lemma_advance_writer();
    law_reads_in_order(filled, ring@.len());
    filled.after_reads(ring@.len()).lemma_advance_reader();
    assert(filled.after_reads(ring@.len()).advanced(false)@ =~= Seq::<T>::empty());
}

/// A slot that is not consumed comes again: the buffer is what it was before, so that the next
/// slot of the same kind is the same one.
pub proof fn law_unconsumed_slot_comes_again<T, const WRITE: bool>(
    ring: RingBufInner<T>,
    slot: RingBufSlot<'_, T, WRITE>,
    again: RingBufSlot<'_, T, WRITE>,
)
    requires
        slot.acquired_from(ring),
        again.acquired_from(slot.prior()),
    ensures
        slot.prior() == ring,
        again.slot == slot.slot,
        again.ring() == slot.ring(),
        again.caused_wrap == slot.caused_wrap,
{
}

/// A value put into a slot that is then not consumed is seen by nobody: those that wait are the
/// ones from before, and the same slot comes again.
pub proof fn law_unconsumed_value_is_unseen<T>(
    ring: RingBufInner<T>,
    slot: RingBufSlot<'_, T, true>,
    filled: RingBufSlot<'_, T, true>,
    value: T,
)
    requires
        ring.capacity() > 0,
        slot.acquired_from(ring),
        filled.ring().stored(slot.ring(), slot.slot as int, value),
        filled.slot == slot.slot,
        filled.caused_wrap == slot.caused_wrap,
    ensures
        filled.prior().wf(),
        filled.prior()@ == ring@,
        filled.prior().can_advance(true),
        filled.prior().write_offset == slot.slot,
{
    filled.prior().lemma_store(ring, value);
}

/// What happens to a buffer while it is locked once.
pub ghost enum Operation<T> {
    /// The writer puts a value into its slot and lets go of that.
    Write(T),
    /// The writer puts a value into its slot and gives that back.
    GiveBackWrite(T),
    /// The reader lets go of its slot.
    Read,
    /// The reader gives its slot back.
    GiveBackRead,
    /// An iterator is marked at a cursor.
    Mark(usize, WrapState),
    /// An attempt to take a slot fails, an iterator looks around, or a side is closed.
    Other,
}

/// Whether `operation` can lead from `before` to `after`.
pub open spec fn is_step<T>(
    before: RingBufInner<T>,
    operation: Operation<T>,
    after: RingBufInner<T>,
) -> bool {
    match operation {
        Operation::Write(value) => {
            &&& before.can_advance(true)
            &&& after.stored(before.advanced(true), before.write_offset as int, value)
        },
        Operation::GiveBackWrite(value) => {
            &&& before.can_advance(true)
            &&& after.stored(before, before.write_offset as int, value)
        },
        Operation::Read => before.can_advance(false) && after == before.advanced(false),
        Operation::GiveBackRead => before.can_advance(false) && after == before,
        Operation::Mark(cursor, wrap_state) => {
            &&& before.valid_cursor(cursor, wrap_state)
            &&& after == before.marked(cursor, wrap_state)
        },
        Operation::Other => after == RingBufInner {
            reader_closed: after.reader_closed,
            writer_closed: after.writer_closed,
            ..before
        },
    }
}

/// Whether `operations` lead through `states`, from the first to the last.
pub open spec fn is_history<T>(
    states: Seq<RingBufInner<T>>,
    operations: Seq<Operation<T>>,
) -> bool {
    &&& states.len() == operations.len() + 1
    &&& forall|i: int|
        0 <= i < operations.len() ==> is_step(
            #[trigger] states[i],
            operations[i],
            states[i + 1],
        )
}

/// The values that were written, and not given back, in their order.
pub open spec fn written<T>(operations: Seq<Operation<T>>) -> Seq<T>
    decreases operations.len(),
{
    if operations.len() == 0 {
        Seq::empty()
    } else {
        match operations.last() {
            Operation::Write(value) => written(operations.drop_last()).push(value),
            _ => written(operations.drop_last()),
        }
    }
}

/// The values that the reader found in its slots, and did not give back, and those that marks
/// dropped, in their order.
pub open spec fn taken<T>(
    states: Seq<RingBufInner<T>>,
    operations: Seq<Operation<T>>,
) -> Seq<T>
    decreases operations.len(),
{
    if operations.len() == 0 {
        Seq::empty()
    } else {
        let before = states[operations.len() - 1];
        let sooner = taken(states, operations.drop_last());
        match operations.last() {
            Operation::Read => sooner.push(before.buffer@[before.read_offset as int]),
            Operation::Mark(cursor, wrap_state) => sooner + before@.take(
                before.rank(cursor, wrap_state),
            ),
            _ => sooner,
        }
    }
}

/// Whatever happens to a buffer that was empty, the values that are taken are those that were
/// written, in the same order: none is lost, repeated or taken from a slot that was given back, and
/// no more than there are slots lag behind. What lags behind is what waits.
pub proof fn law_taken_values_were_written<T>(
    states: Seq<RingBufInner<T>>,
    operations: Seq<Operation<T>>,
)
    requires
        is_history(states, operations),
        states[0].wf(),
        states[0].capacity() > 0,
        states[0]@.len() == 0,
    ensures
        states.last().wf(),
        states.last().capacity() == states[0].capacity(),
        taken(states, operations).is_prefix_of(written(operations)),
        written(operations) == taken(states, operations) + states.last()@,
        written(operations).len() - taken(states, operations).len() <= states[0].capacity(),
    decreases operations.len(),
{
    let n = operations.len() as int;
    if n == 0 {
        assert(states.last()@ =~= Seq::<T>::empty());
    } else {
        let before = states[n - 1];
        let after = states[n];
        let sooner = operations.drop_last();
        lemma_sooner(states, operations);
        law_taken_values_were_written(states.drop_last(), sooner);
        lemma_taken(states, sooner);
        assert(is_step(before, operations[n - 1], after));
        match operations.last() {
            Operation::Write(value) => {
                law_written_value_is_read(before, after, value);
            },
            Operation::GiveBackWrite(value) => {
                after.lemma_store(before, value);
            },
            Operation::Read => {
                before.lemma_advance_reader();
            },
            Operation::GiveBackRead => {},
            Operation::Mark(cursor, wrap_state) => {
                before.lemma_marked(cursor, wrap_state);
            },
            Operation::Other => {
                assert(after@ =~= before@);
            },
        }
        assert(written(operations) =~= taken(states, operations) + after@);
    }
    assert(taken(states, operations) =~= written(operations).take(
        taken(states, operations).len() as int,
    ));
}

/// A history without its last operation is one.
proof fn lemma_sooner<T>(states: Seq<RingBufInner<T>>, operations: Seq<Operation<T>>)
    requires
        is_history(states, operations),
        operations.len() > 0,
    ensures
        is_history(states.drop_last(), operations.drop_last()),
        states.drop_last().last() == states[operations.len() - 1],
        states.drop_last()[0] == states[0],
{
    assert forall|i: int| 0 <= i < operations.len() - 1 implies is_step(
        #[trigger] states.drop_last()[i],
        operations.drop_last()[i],
        states.drop_last()[i + 1],
    ) by {
        assert(is_step(states[i], operations[i], states[i + 1]));
    }
}

/// What was taken does not depend on the state after the last operation.
proof fn lemma_taken<T>(states: Seq<RingBufInner<T>>, operations: Seq<Operation<T>>)
    requires
        operations.len() < states.len(),
    ensures
        taken(states.drop_last(), operations) == taken(states, operations),
    decreases operations.len(),
{
    if operations.len() > 0 {
        lemma_taken(states, operations.drop_last());
    }
}

/// A new buffer takes as many values as it has slots, and holds nothing before. Until a slot is
/// written to it holds what it was made with.
pub proof fn law_new_buffer_takes_its_size<T>(
    states: Seq<RingBufInner<T>>,
    operations: Seq<Operation<T>>,
)
    requires
        is_history(states, operations),
        states[0].wf(),
        states[0].capacity() > 0,
        states[0].read_offset == 0,
        states[0].write_offset == 0,
        !states[0].writer_wrapped,
        forall|i: int| 0 <= i < operations.len() ==> #[trigger] operations[i] is Write,
    ensures
        operations.len() <= states[0].capacity(),
        states.last()@ == written(operations),
        written(operations).len() == operations.len(),
        states.last().can_advance(false) <==> operations.len() > 0,
        states.last().can_advance(true) <==> operations.len() < states[0].capacity(),
        forall|i: int|
            operations.len() <= i < states[0].capacity() ==> #[trigger] states.last().buffer@[i]
                == states[0].buffer@[i],
        states.last().can_advance(true) ==> states.last().write_offset == operations.len(),
        states.last().wf(),
        states.last().capacity() == states[0].capacity(),
        states.last().read_offset == 0,
    decreases operations.len(),
{
    let n = operations.len() as int;
    if n == 0 {
        assert(states.last()@ =~= written(operations));
    } else {
        let before = states[n - 1];
        let after = states[n];
        lemma_sooner(states, operations);
        law_new_buffer_takes_its_size(states.drop_last(), operations.drop_last());
        assert(operations[n - 1] is Write);
        assert(is_step(before, operations[n - 1], after));
        law_written_value_is_read(before, after, operations.last()->Write_0);
    }
}

/// The slots of the two sides do not get in each other's way: the writer's steps leave the value
/// that the reader takes next, and the reader's steps leave the slot that the writer takes next.
pub proof fn law_sides_do_not_interfere<T>(ring: RingBufInner<T>)
    requires
        ring.wf(),
        ring.capacity() > 0,
    ensures
        ring.can_advance(true) && ring.can_advance(false) ==> {
            &&& ring.advanced(true).can_advance(false)
            &&& ring.advanced(true).read_offset == ring.read_offset
            &&& ring.advanced(true)@[0] == ring@[0]
            &&& ring.read_offset != ring.write_offset
            &&& ring.advanced(false).can_advance(true)
            &&& ring.advanced(false).write_offset == ring.write_offset
        },
{
    if ring.can_advance(true) && ring.can_advance(false) {
        ring.lemma_advance_writer();
        ring.lemma_advance_reader();
    }
}

/// A cursor stands at the value that its rank names.
pub proof fn law_cursor_shows_its_value<T>(
    ring: RingBufInner<T>,
    cursor: usize,
    wrap_state: WrapState,
)
    requires
        ring.wf(),
        ring.valid_cursor(cursor, wrap_state),
    ensures
        0 <= ring.rank(cursor, wrap_state) <= ring@.len(),
        ring.rank(cursor, wrap_state) < ring@.len() ==> ring.buffer@[cursor as int]
            == ring@[ring.rank(cursor, wrap_state)],
{
}

/// A step back undoes a step forth, and a step forth one back: the iterator stands where it
/// stood.
pub proof fn law_back_undoes_next<T>(
    before: ReadIterator<'_, T>,
    between: ReadIterator<'_, T>,
    after: ReadIterator<'_, T>,
)
    requires
        before.wf(),
        between.moved_from(before),
        after.moved_from(between),
        ({
            ||| between.position() == before.position() + 1 && after.position()
                == between.position() - 1
            ||| between.position() == before.position() - 1 && after.position()
                == between.position() + 1
        }),
    ensures
        after.index() == before.index(),
{
    law_position_fixes_cursor(before, after);
}

/// Two iterators of one buffer at the same position stand at the same cursor.
pub proof fn law_position_fixes_cursor<T>(one: ReadIterator<'_, T>, other: ReadIterator<'_, T>)
    requires
        one.wf(),
        other.moved_from(one),
        one.position() == other.position(),
    ensures
        one.index() == other.index(),
{
}

/// An iterator that is reset to a mark stands where it stood when the mark was given, so that the
/// same values follow.
pub proof fn law_reset_comes_back<T>(marked: ReadIterator<'_, T>, reset: ReadIterator<'_, T>)
    requires
        marked.wf(),
        reset.moved_from(marked),
        reset.index() == marked.index(),
    ensures
        reset.position() == marked.position(),
        reset.ring() == marked.ring(),
{
}

/// A mark belongs to one iterator: another one whose number comes from the same counter does not
/// take it, whichever buffer that one looks at. Only after all numbers were taken do they come
/// again.
pub proof fn law_marks_belong_to_one_iterator<T, U>(
    one: ReadIterator<'_, T>,
    other: ReadIterator<'_, U>,
    index: RingBufIndex,
    first: u64,
    i: nat,
    j: nat,
)
    requires
        one.id.0 == RingBufID::nth(first, i),
        other.id.0 == RingBufID::nth(first, j),
        i != j,
        i <= j + u64::MAX,
        j <= i + u64::MAX,
        one.owns(index),
    ensures
        !other.owns(index),
{
    lemma_nth(first, i);
    lemma_nth(first, j);
}

/// The numbers of a counter go up, and come round after the last.
proof fn lemma_nth(first: u64, n: nat)
    ensures
        RingBufID::nth(first, n) == (first + n) % (u64::MAX + 1),
    decreases n,
{
    if n > 0 {
        lemma_nth(first, (n - 1) as nat);
    }
}

/// To mark a position drops exactly the values before it; the one there comes next.
pub proof fn law_mark_drops_what_lies_before<T>(
    ring: RingBufInner<T>,
    cursor: usize,
    wrap_state: WrapState,
)
    requires
        ring.wf(),
        ring.valid_cursor(cursor, wrap_state),
    ensures
        ring.marked(cursor, wrap_state).wf(),
        ring.marked(cursor, wrap_state)@ == ring@.skip(ring.rank(cursor, wrap_state)),
{
    ring.lemma_marked(cursor, wrap_state);
}

/// A mark wakes the writer exactly if it drops a value, unless the iterator has gone through all
/// values of a full buffer.
pub proof fn law_mark_wakes_for_room<T>(iter: ReadIterator<'_, T>)
    requires
        iter.wf(),
        iter.ring().capacity() > 0,
        iter.position() < iter.ring().capacity(),
    ensures
        iter.ring().read_offset != iter.cursor <==> iter.position() > 0,
{
}

/// The reader can read exactly while a value waits, and the writer write exactly while fewer wait
/// than there are slots.
pub proof fn law_sides_go_on_while_they_can<T>(ring: RingBuf<T>)
    requires
        ring.wf(),
        ring.inner.buffer@.len() > 0,
    ensures
        ring.readable() <==> ring@.len() > 0,
        ring.writable() <==> ring@.len() < ring.inner.buffer@.len(),
        ring.capacity() == ring.inner.buffer@.len(),
{
    law_occupancy(ring.inner);
}

/// The reader is handed the value that has waited longest, and the others wait on.
pub proof fn law_oldest_value_is_read<T>(ring: RingBuf<T>, slot: RingBufSlot<'_, T, false>)
    requires
        ring.hands_out_read(slot),
        ring.inner.buffer@.len() > 0,
    ensures
        ring@.len() > 0,
        slot.ring().buffer@[slot.slot as int] == ring@[0],
        slot.ring()@ == ring@.subrange(1, ring@.len() as int),
        slot.ring().buffer == ring.inner.buffer,
        slot.ring().reader_closed == ring.inner.reader_closed,
        slot.ring().writer_closed == ring.inner.writer_closed,
{
    assert(ring@.drop_first() =~= ring@.subrange(1, ring@.len() as int));
}

/// The writer is handed a slot that nobody waits to read, and whatever that holds when it is let go
/// of waits behind all others.
pub proof fn law_written_slot_waits_last<T>(ring: RingBuf<T>, slot: RingBufSlot<'_, T, true>)
    requires
        ring.hands_out_write(slot),
        ring.inner.buffer@.len() > 0,
    ensures
        ring@.len() < ring.inner.buffer@.len(),
        slot.ring()@.len() == ring@.len() + 1,
        forall|i: int| 0 <= i < ring@.len() ==> #[trigger] slot.ring()@[i] == ring@[i],
        slot.ring()@.last() == slot.ring().buffer@[slot.slot as int],
        slot.ring().buffer == ring.inner.buffer,
        slot.ring().reader_closed == ring.inner.reader_closed,
        slot.ring().writer_closed == ring.inner.writer_closed,
{
}

/// A buffer whose storage and positions are replaced has just these, and keeps its name.
pub proof fn law_replaced_storage<T>(ring: RingBuf<T>, inner: RingBufInner<T>)
    ensures
        ring.with_inner(inner).inner == inner,
        ring.with_inner(inner)@ == inner@,
        ring.with_inner(inner).debug_name == ring.debug_name,
{
}

/// An iterator's position is how many waiting values lie before it: one that stands at the reader's
/// place has none before it, and to go back to a mark is to stand where the mark was given.
pub proof fn law_position_counts_values<T>(iter: ReadIterator<'_, T>)
    requires
        iter.wf(),
    ensures
        0 <= iter.position() <= iter.ring()@.len(),
        iter.position() < iter.ring()@.len() ==> iter.ring().buffer@[iter.cursor as int]
            == iter.ring()@[iter.position()],
        iter.cursor == iter.ring().read_offset && iter.wrap_state != WrapState::HasWrapped
            ==> iter.position() == 0,
        iter.index().iterator_id == iter.id,
        iter.index().cursor == iter.cursor,
        iter.index().wrap_state == iter.wrap_state,
        iter.owns(iter.index()),
{
    law_cursor_shows_its_value(iter.ring(), iter.cursor, iter.wrap_state);
}

} // verus!
