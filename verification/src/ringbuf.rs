//! A fixed-size ring buffer whose slots are filled and read in place.
//!
//! A [`RingBuf`] is the state that a producer and a consumer share. Each operation takes it by
//! exclusive reference, as a thread holds it while it owns the lock around the buffer. Where an
//! operation would have to wait for the other side, it says so in its result; the thread then
//! lets the lock go, sleeps until the other side wakes it, and calls again.
use vstd::prelude::*;

pub mod laws;

verus! {

/// Tells iterators apart.
///
/// The numbers come from a counter that is handed in. Iterators that share one counter, over
/// whichever buffers, have different numbers until it comes round.
#[derive(PartialEq, Eq, Structural, Debug, Clone, Copy)]
pub struct RingBufID(pub u64);

impl RingBufID {
    /// The number that follows `number`; the first one follows the last.
    pub open spec fn following(number: u64) -> u64 {
        if number == u64::MAX {
            0
        } else {
            (number + 1) as u64
        }
    }

    /// The number that is taken after `n` others, beginning with `first`.
    pub open spec fn nth(first: u64, n: nat) -> u64
        decreases n,
    {
        if n == 0 {
            first
        } else {
            Self::following(Self::nth(first, (n - 1) as nat))
        }
    }

    /// Takes the next number of `counter`.
    pub fn next(counter: &mut u64) -> (id: RingBufID)
        ensures
            id.0 == *old(counter),
            *final(counter) == Self::following(*old(counter)),
    {
        let id = RingBufID(*counter);
        *counter = counter.wrapping_add(1);
        id
    }
}

/// The side of a buffer that waits for the other one.
#[derive(PartialEq, Eq, Structural, Debug, Clone, Copy)]
pub enum Side {
    Reader,
    Writer,
}

/// The storage of a ring buffer with the positions of its reader and its writer.
///
/// The two positions alone cannot tell a full buffer from an empty one; `writer_wrapped` does: it
/// is set while the writer is one lap ahead of the reader.
pub struct RingBufInner<T> {
    pub buffer: Vec<T>,
    pub read_offset: usize,
    pub write_offset: usize,
    pub writer_wrapped: bool,
    pub reader_closed: bool,
    pub writer_closed: bool,
}

impl<T> View for RingBufInner<T> {
    type V = Seq<T>;

    /// The values that were written and not read yet, oldest first.
    open spec fn view(&self) -> Seq<T> {
        Seq::new(self.count(), |i: int| self.buffer@[self.place(i)])
    }
}

impl<T> RingBufInner<T> {
    /// How many slots there are.
    pub open spec fn capacity(self) -> nat {
        self.buffer.len() as nat
    }

    /// Whether `offset` is a position that the reader or the writer can have.
    pub open spec fn valid_offset(self, offset: int) -> bool {
        0 <= offset && (offset < self.capacity() || offset == 0)
    }

    pub open spec fn wf(self) -> bool {
        &&& self.valid_offset(self.read_offset as int)
        &&& self.valid_offset(self.write_offset as int)
        &&& if self.writer_wrapped {
            self.write_offset <= self.read_offset
        } else {
            self.read_offset <= self.write_offset
        }
    }

    /// How many values wait to be read.
    pub open spec fn count(self) -> nat {
        if self.writer_wrapped {
            (self.capacity() - self.read_offset + self.write_offset) as nat
        } else {
            (self.write_offset - self.read_offset) as nat
        }
    }

    /// Where in the storage the `i`th value after the reader's position lies.
    pub open spec fn place(self, i: int) -> int {
        if self.read_offset + i < self.capacity() {
            self.read_offset + i
        } else {
            self.read_offset + i - self.capacity()
        }
    }

    /// The position that follows `offset`.
    pub open spec fn following(self, offset: usize) -> usize {
        if offset + 1 >= self.capacity() {
            0
        } else {
            (offset + 1) as usize
        }
    }

    /// Whether a step of the writer (`write`) or of the reader leads back to the first slot.
    pub open spec fn wraps(self, write: bool) -> bool {
        self.offset(write) + 1 >= self.capacity()
    }

    /// The position of the writer (`write`) or of the reader.
    pub open spec fn offset(self, write: bool) -> usize {
        if write {
            self.write_offset
        } else {
            self.read_offset
        }
    }

    /// Whether there is a slot for the writer (`write`) or for the reader.
    pub open spec fn can_advance(self, write: bool) -> bool {
        self.read_offset != self.write_offset || write != self.writer_wrapped
    }

    /// The buffer after the writer (`write`) or the reader took its next slot.
    pub open spec fn advanced(self, write: bool) -> RingBufInner<T> {
        if write {
            RingBufInner {
                write_offset: self.following(self.write_offset),
                writer_wrapped: self.writer_wrapped || self.wraps(true),
                ..self
            }
        } else {
            RingBufInner {
                read_offset: self.following(self.read_offset),
                writer_wrapped: self.writer_wrapped && !self.wraps(false),
                ..self
            }
        }
    }

    /// The buffer after its reader took `n` slots, one after the other.
    pub open spec fn after_reads(self, n: nat) -> RingBufInner<T>
        decreases n,
    {
        if n == 0 {
            self
        } else {
            self.after_reads((n - 1) as nat).advanced(false)
        }
    }

    /// Reading changes the reader's position only.
    pub(crate) proof fn lemma_after_reads(self, n: nat)
        ensures
            self.after_reads(n) == (RingBufInner {
                read_offset: self.after_reads(n).read_offset,
                writer_wrapped: self.after_reads(n).writer_wrapped,
                ..self
            }),
        decreases n,
    {
        if n > 0 {
            self.lemma_after_reads((n - 1) as nat);
        }
    }

    /// Whether this buffer is `other` with `value` put into slot `slot`.
    pub open spec fn stored(self, other: RingBufInner<T>, slot: int, value: T) -> bool {
        &&& self.buffer@ == other.buffer@.update(slot, value)
        &&& self == RingBufInner { buffer: self.buffer, ..other }
    }

    /// What a step of the writer does to the waiting values: the one in its slot joins the end.
    pub(crate) proof fn lemma_advance_writer(self)
        requires
            self.wf(),
            self.can_advance(true),
            self.capacity() > 0,
        ensures
            self.advanced(true).wf(),
            self.advanced(true)@ == self@.push(self.buffer@[self.write_offset as int]),
    {
        assert(self.advanced(true)@ =~= self@.push(self.buffer@[self.write_offset as int]));
    }

    /// What a step of the reader does to the waiting values: the first one leaves.
    pub(crate) proof fn lemma_advance_reader(self)
        requires
            self.wf(),
            self.can_advance(false),
            self.capacity() > 0,
        ensures
            self.advanced(false).wf(),
            self@.len() > 0,
            self@[0] == self.buffer@[self.read_offset as int],
            self.advanced(false)@ == self@.drop_first(),
    {
        assert(self.advanced(false)@ =~= self@.drop_first());
    }

    /// A value put into the writer's slot leaves those that wait as they are.
    pub(crate) proof fn lemma_store(self, other: RingBufInner<T>, value: T)
        requires
            other.wf(),
            other.can_advance(true),
            self.stored(other, other.write_offset as int, value),
        ensures
            self.wf(),
            self.can_advance(true),
            self@ == other@,
    {
        assert(self@ =~= other@);
    }

    /// Creates a buffer of `size` slots, each filled by a call of `init`.
    fn new(size: usize, init: impl FnMut() -> T) -> (inner: Self)
        requires
            call_requires(init, ()),
        ensures
            inner.wf(),
            inner.capacity() == size,
            forall|i: int|
                0 <= i < size ==> call_ensures(init, (), #[trigger] inner.buffer@[i]),
            inner.read_offset == 0,
            inner.write_offset == 0,
            !inner.writer_wrapped,
            !inner.reader_closed,
            !inner.writer_closed,
            inner@ == Seq::<T>::empty(),
    {
        let ghost given = init;
        let mut init = init;
        let mut buffer: Vec<T> = Vec::with_capacity(size);
        let mut filled: usize = 0;
        while filled < size
            invariant
                filled <= size,
                buffer@.len() == filled,
                init == given,
                call_requires(given, ()),
                forall|i: int|
                    0 <= i < filled ==> call_ensures(given, (), #[trigger] buffer@[i]),
            decreases size - filled,
        {
            buffer.push(init());
            filled += 1;
        }
        RingBufInner {
            buffer,
            read_offset: 0,
            write_offset: 0,
            writer_wrapped: false,
            reader_closed: false,
            writer_closed: false,
        }
    }
}

/// A slot that its holder reads, or fills in place.
///
/// The buffer has already moved on past the slot: to let go of it is to read the value, or to hand
/// it to the reader. [`do_not_consume`](Self::do_not_consume) takes that step back.
pub struct RingBufSlot<'a, T, const WRITE: bool> {
    pub guard: &'a mut RingBufInner<T>,
    pub slot: usize,
    pub caused_wrap: bool,
}

impl<'a, T, const WRITE: bool> RingBufSlot<'a, T, WRITE> {
    /// The buffer that the slot belongs to, as it is now.
    pub open spec fn ring(self) -> RingBufInner<T> {
        *self.guard
    }

    /// The buffer with the step that led to this slot taken back.
    pub open spec fn prior(self) -> RingBufInner<T> {
        if WRITE {
            RingBufInner {
                write_offset: self.slot,
                writer_wrapped: self.ring().writer_wrapped && !self.caused_wrap,
                ..self.ring()
            }
        } else {
            RingBufInner {
                read_offset: self.slot,
                writer_wrapped: self.ring().writer_wrapped || self.caused_wrap,
                ..self.ring()
            }
        }
    }

    pub open spec fn wf(self) -> bool {
        self.acquired_from(self.prior())
    }

    /// Whether the slot is what `ring` hands out next.
    pub open spec fn acquired_from(self, ring: RingBufInner<T>) -> bool {
        &&& ring.wf()
        &&& ring.can_advance(WRITE)
        &&& self.ring() == ring.advanced(WRITE)
        &&& self.slot == ring.offset(WRITE)
        &&& self.caused_wrap == ring.wraps(WRITE)
    }

    /// The value in the slot.
    pub fn deref(&self) -> (value: &T)
        requires
            self.slot < self.ring().capacity(),
        ensures
            *value == self.ring().buffer@[self.slot as int],
    {
        &self.guard.buffer[self.slot]
    }

    /// Lets go of the slot and names the side that waits for what this one did.
    pub fn finish(self) -> (woken: Side)
        ensures
            *final(self.guard) == self.ring(),
            woken == (if WRITE {
                Side::Reader
            } else {
                Side::Writer
            }),
    {
        if WRITE {
            Side::Reader
        } else {
            Side::Writer
        }
    }

    /// Informs the buffer that nothing was done with this slot: the same slot is handed out again
    /// the next time one is asked for. Nobody has to be woken.
    pub fn do_not_consume(self)
        requires
            self.wf(),
        ensures
            *final(self.guard) == self.prior(),
    {
        let guard = self.guard;
        if WRITE {
            guard.write_offset = self.slot;
            if self.caused_wrap {
                guard.writer_wrapped = false;
            }
        } else {
            guard.read_offset = self.slot;
            if self.caused_wrap {
                guard.writer_wrapped = true;
            }
        }
    }
}

impl<'a, T> RingBufSlot<'a, T, true> {
    /// The value in the slot, to be changed or replaced.
    pub fn deref_mut(&mut self) -> (value: &mut T)
        requires
            old(self).slot < old(self).ring().capacity(),
        ensures
            *value == old(self).ring().buffer@[old(self).slot as int],
            final(self).ring().stored(old(self).ring(), old(self).slot as int, *final(value)),
            final(self).slot == old(self).slot,
            final(self).caused_wrap == old(self).caused_wrap,
            *final(final(self).guard) == *final(old(self).guard),
            old(self).wf() ==> final(self).wf() && final(self).ring()@
                == old(self).ring()@.drop_last().push(*final(value)),
    {
        proof {
            if self.wf() {
                self.lemma_filled();
            }
        }
        &mut self.guard.buffer[self.slot]
    }

    /// A value put into the slot takes the place of the last one that waits.
    pub(crate) proof fn lemma_filled(self)
        requires
            self.wf(),
            self.slot < self.ring().capacity(),
        ensures
            forall|filled: RingBufSlot<'a, T, true>, value: T| #[trigger]
                filled.ring().stored(self.ring(), self.slot as int, value) && filled.slot
                    == self.slot && filled.caused_wrap == self.caused_wrap ==> filled.wf()
                    && filled.ring()@ == self.ring()@.drop_last().push(value),
    {
        assert forall|filled: RingBufSlot<'a, T, true>, value: T| #[trigger]
            filled.ring().stored(self.ring(), self.slot as int, value) && filled.slot == self.slot
                && filled.caused_wrap == self.caused_wrap implies filled.wf() && filled.ring()@
            == self.ring()@.drop_last().push(value) by {
            self.prior().lemma_advance_writer();
            filled.prior().lemma_store(self.prior(), value);
            filled.prior().lemma_advance_writer();
            assert(self.ring()@.drop_last() =~= self.prior()@);
        }
    }
}

/// Takes the next slot for the writer (`WRITE`) or the reader, or gives the buffer back if there
/// is none.
fn try_get_slot<'a, T, const WRITE: bool>(guard: &'a mut RingBufInner<T>) -> (res: Result<
    RingBufSlot<'a, T, WRITE>,
    &'a mut RingBufInner<T>,
>)
    requires
        old(guard).wf(),
    ensures
        res is Ok <==> old(guard).can_advance(WRITE),
        match res {
            Ok(slot) => {
                &&& slot.acquired_from(*old(guard))
                &&& *final(guard) == *final(slot.guard)
            },
            Err(rest) => {
                &&& *rest == *old(guard)
                &&& *final(guard) == *final(rest)
            },
        },
{
    let len: usize = guard.buffer.len();
    let can_advance = guard.read_offset != guard.write_offset || (WRITE ^ guard.writer_wrapped);
    if can_advance {
        let mut caused_wrap: bool = false;
        let slot: usize = if WRITE {
            let slot: usize = guard.write_offset;
            guard.write_offset = guard.write_offset + 1;
            if guard.write_offset >= len {
                guard.write_offset = 0;
                guard.writer_wrapped = true;
                caused_wrap = true;
            }
            slot
        } else {
            let slot: usize = guard.read_offset;
            guard.read_offset = guard.read_offset + 1;
            if guard.read_offset >= len {
                guard.read_offset = 0;
                guard.writer_wrapped = false;
                caused_wrap = true;
            }
            slot
        };
        Ok(RingBufSlot { guard, slot, caused_wrap })
    } else {
        Err(guard)
    }
}

/// A ring buffer with a name for messages.
pub struct RingBuf<T> {
    pub inner: RingBufInner<T>,
    pub debug_name: &'static str,
}

/// Why an attempt to take a slot failed.
#[derive(PartialEq, Eq, Structural, Debug, Clone, Copy)]
pub enum TryAcquireError {
    ChannelClosed,
    NotReady,
}

/// Why no slot will ever come.
#[derive(PartialEq, Eq, Structural, Debug, Clone, Copy)]
pub enum AcquireError {
    ChannelClosed,
}

impl<T> View for RingBuf<T> {
    type V = Seq<T>;

    /// The values that were written and not read yet, oldest first.
    open spec fn view(&self) -> Seq<T> {
        self.inner@
    }
}

impl<T> RingBuf<T> {
    pub open spec fn wf(self) -> bool {
        self.inner.wf()
    }

    pub open spec fn capacity(self) -> nat {
        self.inner.capacity()
    }

    /// Whether a slot waits for the reader.
    pub open spec fn readable(self) -> bool {
        self.inner.can_advance(false)
    }

    /// Whether a slot is free for the writer.
    pub open spec fn writable(self) -> bool {
        self.inner.can_advance(true)
    }

    /// This buffer with its storage and positions replaced by `inner`.
    pub open spec fn with_inner(self, inner: RingBufInner<T>) -> RingBuf<T> {
        RingBuf { inner, ..self }
    }

    /// Whether `slot` is the oldest waiting value of this buffer, taken out of it.
    pub open spec fn hands_out_read(self, slot: RingBufSlot<'_, T, false>) -> bool {
        &&& slot.acquired_from(self.inner)
        &&& slot.wf()
        &&& slot.ring().wf()
        &&& self.capacity() > 0 ==> {
            &&& self@.len() > 0
            &&& slot.slot < self.capacity()
            &&& slot.ring().buffer@[slot.slot as int] == self@[0]
            &&& slot.ring()@ == self@.drop_first()
        }
    }

    /// Whether `slot` is the next free slot of this buffer, joined to the waiting values.
    pub open spec fn hands_out_write(self, slot: RingBufSlot<'_, T, true>) -> bool {
        &&& slot.acquired_from(self.inner)
        &&& slot.wf()
        &&& slot.ring().wf()
        &&& self.capacity() > 0 ==> {
            &&& self@.len() < self.capacity()
            &&& slot.slot < self.capacity()
            &&& slot.ring()@ == self@.push(self.inner.buffer@[slot.slot as int])
        }
    }

    /// Creates an empty buffer of `size` slots, each filled by a call of `init`.
    pub fn new(size: usize, init: impl FnMut() -> T, debug_name: &'static str) -> (ring: Self)
        requires
            call_requires(init, ()),
        ensures
            ring.wf(),
            ring.capacity() == size,
            forall|i: int|
                0 <= i < size ==> call_ensures(init, (), #[trigger] ring.inner.buffer@[i]),
            ring.inner.read_offset == 0,
            ring.inner.write_offset == 0,
            !ring.inner.writer_wrapped,
            !ring.inner.reader_closed,
            !ring.inner.writer_closed,
            ring@ == Seq::<T>::empty(),
            ring.debug_name == debug_name,
    {
        RingBuf { inner: RingBufInner::new(size, init), debug_name }
    }

    /// Takes the oldest waiting value.
    ///
    /// `None` means that the queue ran dry and its writer is still at work: wait to be woken as the
    /// reader, and call again.
    pub fn read(&mut self) -> (res: Option<Result<RingBufSlot<'_, T, false>, AcquireError>>)
        requires
            old(self).wf(),
        ensures
            match res {
                Some(Ok(slot)) => {
                    &&& old(self).readable()
                    &&& old(self).hands_out_read(slot)
                    &&& *final(self) == old(self).with_inner(*final(slot.guard))
                },
                Some(Err(AcquireError::ChannelClosed)) => {
                    &&& !old(self).readable()
                    &&& old(self).inner.writer_closed
                    &&& *final(self) == *old(self)
                },
                None => {
                    &&& !old(self).readable()
                    &&& !old(self).inner.writer_closed
                    &&& *final(self) == *old(self)
                },
            },
    {
        match self.try_read() {
            Ok(slot) => Some(Ok(slot)),
            Err(TryAcquireError::ChannelClosed) => Some(Err(AcquireError::ChannelClosed)),
            Err(TryAcquireError::NotReady) => None,
        }
    }

    /// Takes the oldest waiting value, if there is one.
    pub fn try_read(&mut self) -> (res: Result<RingBufSlot<'_, T, false>, TryAcquireError>)
        requires
            old(self).wf(),
        ensures
            match res {
                Ok(slot) => {
                    &&& old(self).readable()
                    &&& old(self).hands_out_read(slot)
                    &&& *final(self) == old(self).with_inner(*final(slot.guard))
                },
                Err(TryAcquireError::ChannelClosed) => {
                    &&& !old(self).readable()
                    &&& old(self).inner.writer_closed
                    &&& *final(self) == *old(self)
                },
                Err(TryAcquireError::NotReady) => {
                    &&& !old(self).readable()
                    &&& !old(self).inner.writer_closed
                    &&& *final(self) == *old(self)
                },
            },
    {
        proof {
            if self.readable() && self.capacity() > 0 {
                self.inner.lemma_advance_reader();
            }
        }
        match try_get_slot::<T, false>(&mut self.inner) {
            Ok(slot) => Ok(slot),
            Err(guard) => {
                if guard.writer_closed {
                    Err(TryAcquireError::ChannelClosed)
                } else {
                    Err(TryAcquireError::NotReady)
                }
            },
        }
    }

    /// Takes the next free slot.
    ///
    /// `None` means that the queue is full and its reader is still at work: wait to be woken as
    /// the writer, and call again.
    pub fn write(&mut self) -> (res: Option<Result<RingBufSlot<'_, T, true>, AcquireError>>)
        requires
            old(self).wf(),
        ensures
            match res {
                Some(Ok(slot)) => {
                    &&& !old(self).inner.reader_closed
                    &&& old(self).writable()
                    &&& old(self).hands_out_write(slot)
                    &&& *final(self) == old(self).with_inner(*final(slot.guard))
                },
                Some(Err(AcquireError::ChannelClosed)) => {
                    &&& old(self).inner.reader_closed
                    &&& *final(self) == *old(self)
                },
                None => {
                    &&& !old(self).inner.reader_closed
                    &&& !old(self).writable()
                    &&& *final(self) == *old(self)
                },
            },
    {
        match self.try_write() {
            Ok(slot) => Some(Ok(slot)),
            Err(TryAcquireError::ChannelClosed) => Some(Err(AcquireError::ChannelClosed)),
            Err(TryAcquireError::NotReady) => None,
        }
    }

    /// Takes the next free slot, if there is one.
    pub fn try_write(&mut self) -> (res: Result<RingBufSlot<'_, T, true>, TryAcquireError>)
        requires
            old(self).wf(),
        ensures
            match res {
                Ok(slot) => {
                    &&& !old(self).inner.reader_closed
                    &&& old(self).writable()
                    &&& old(self).hands_out_write(slot)
                    &&& *final(self) == old(self).with_inner(*final(slot.guard))
                },
                Err(TryAcquireError::ChannelClosed) => {
                    &&& old(self).inner.reader_closed
                    &&& *final(self) == *old(self)
                },
                Err(TryAcquireError::NotReady) => {
                    &&& !old(self).inner.reader_closed
                    &&& !old(self).writable()
                    &&& *final(self) == *old(self)
                },
            },
    {
        proof {
            if self.writable() && self.capacity() > 0 {
                self.inner.lemma_advance_writer();
            }
        }
        if self.inner.reader_closed {
            return Err(TryAcquireError::ChannelClosed);
        }
        match try_get_slot::<T, true>(&mut self.inner) {
            Ok(slot) => Ok(slot),
            Err(_) => Err(TryAcquireError::NotReady),
        }
    }

    /// Tells the writer that nobody will read any more.
    pub fn close_read(&mut self)
        ensures
            *final(self) == old(self).with_inner(
                RingBufInner { reader_closed: true, ..old(self).inner },
            ),
    {
        self.inner.reader_closed = true;
    }

    /// Tells the reader that nothing will be written any more.
    pub fn close_write(&mut self)
        ensures
            *final(self) == old(self).with_inner(
                RingBufInner { writer_closed: true, ..old(self).inner },
            ),
    {
        self.inner.writer_closed = true;
    }
}

/// What a step past the last slot means for an iterator.
#[derive(PartialEq, Eq, Structural, Debug, Clone, Copy)]
pub enum WrapState {
    /// The waiting values end before the last slot does.
    MayNotWrap,
    /// The waiting values go on in the first slot.
    MayWrap,
    /// The iterator went on in the first slot.
    HasWrapped,
}

/// A slot with the value that a reader stopped at. To let go of it wakes nobody.
pub struct NonNotifyingSlot<'a, T> {
    pub guard: &'a mut RingBufInner<T>,
    pub slot: usize,
}

impl<'a, T> NonNotifyingSlot<'a, T> {
    /// The buffer that the slot belongs to, as it is now.
    pub open spec fn ring(self) -> RingBufInner<T> {
        *self.guard
    }

    /// The value in the slot.
    pub fn deref(&self) -> (value: &T)
        requires
            self.slot < self.ring().capacity(),
        ensures
            *value == self.ring().buffer@[self.slot as int],
    {
        &self.guard.buffer[self.slot]
    }
}

/// A position of a [`ReadIterator`], to come back to.
#[derive(PartialEq, Eq, Structural, Debug, Clone, Copy)]
pub struct RingBufIndex {
    pub iterator_id: RingBufID,
    pub cursor: usize,
    pub wrap_state: WrapState,
}

/// Looks at the waiting values in order, forth and back, without taking any.
pub struct ReadIterator<'a, T> {
    pub id: RingBufID,
    pub guard: &'a mut RingBufInner<T>,
    pub cursor: usize,
    pub wrap_state: WrapState,
}

impl<T> RingBufInner<T> {
    /// Whether an iterator over this buffer can stand at `cursor` in state `wrap_state`.
    pub open spec fn valid_cursor(self, cursor: usize, wrap_state: WrapState) -> bool {
        match wrap_state {
            WrapState::MayNotWrap => {
                &&& !self.writer_wrapped
                &&& self.read_offset <= cursor <= self.write_offset
            },
            WrapState::MayWrap => {
                &&& self.writer_wrapped
                &&& self.read_offset <= cursor
                &&& self.valid_offset(cursor as int)
            },
            WrapState::HasWrapped => {
                &&& self.writer_wrapped
                &&& self.capacity() > 0
                &&& cursor <= self.write_offset
            },
        }
    }

    /// How many of the waiting values lie before the given cursor.
    pub open spec fn rank(self, cursor: usize, wrap_state: WrapState) -> int {
        match wrap_state {
            WrapState::HasWrapped => self.capacity() - self.read_offset + cursor,
            _ => cursor - self.read_offset,
        }
    }

    /// The buffer after its reader moved to the given cursor.
    pub open spec fn marked(self, cursor: usize, wrap_state: WrapState) -> RingBufInner<T> {
        RingBufInner {
            read_offset: cursor,
            writer_wrapped: wrap_state == WrapState::MayWrap,
            ..self
        }
    }

    /// A reader that moves to a cursor drops the values before it and keeps the others.
    pub(crate) proof fn lemma_marked(self, cursor: usize, wrap_state: WrapState)
        requires
            self.wf(),
            self.valid_cursor(cursor, wrap_state),
        ensures
            0 <= self.rank(cursor, wrap_state) <= self@.len(),
            self.marked(cursor, wrap_state).wf(),
            self.marked(cursor, wrap_state)@ == self@.skip(self.rank(cursor, wrap_state)),
    {
        assert(self.marked(cursor, wrap_state)@ =~= self@.skip(self.rank(cursor, wrap_state)));
    }
}

impl<'a, T> ReadIterator<'a, T> {
    /// The buffer that is looked at, as it is now.
    pub open spec fn ring(self) -> RingBufInner<T> {
        *self.guard
    }

    pub open spec fn wf(self) -> bool {
        &&& self.ring().wf()
        &&& self.ring().valid_cursor(self.cursor, self.wrap_state)
    }

    /// How many of the waiting values lie before the iterator.
    pub open spec fn position(self) -> int {
        self.ring().rank(self.cursor, self.wrap_state)
    }

    /// The mark of the position where the iterator stands.
    pub open spec fn index(self) -> RingBufIndex {
        RingBufIndex { iterator_id: self.id, cursor: self.cursor, wrap_state: self.wrap_state }
    }

    /// Whether `index` is a mark that this iterator gave out.
    pub open spec fn owns(self, index: RingBufIndex) -> bool {
        &&& index.iterator_id == self.id
        &&& self.ring().valid_cursor(index.cursor, index.wrap_state)
    }

    /// Whether this is `other` moved to some position.
    pub open spec fn moved_from(self, other: Self) -> bool {
        &&& self.id == other.id
        &&& self.guard == other.guard
        &&& self.wf()
    }

    /// The next value, with a mark to come back to it.
    pub fn next(&mut self) -> (res: Option<(RingBufIndex, &T)>)
        requires
            old(self).wf(),
            old(self).ring().capacity() > 0 || !old(self).ring().writer_wrapped,
        ensures
            final(self).moved_from(*old(self)),
            match res {
                Some((index, value)) => {
                    &&& 0 <= old(self).position() < old(self).ring()@.len()
                    &&& *value == old(self).ring()@[old(self).position()]
                    &&& index == old(self).index()
                    &&& final(self).position() == old(self).position() + 1
                },
                None => {
                    &&& old(self).position() == old(self).ring()@.len()
                    &&& final(self).index() == old(self).index()
                },
            },
    {
        let len: usize = self.guard.buffer.len();
        if self.cursor == self.guard.write_offset && self.wrap_state != WrapState::MayWrap {
            return None;
        }
        let value = &self.guard.buffer[self.cursor];
        let index = RingBufIndex {
            iterator_id: self.id,
            cursor: self.cursor,
            wrap_state: self.wrap_state,
        };
        self.cursor = self.cursor + 1;
        if self.cursor >= len {
            self.wrap_state = WrapState::HasWrapped;
            self.cursor = 0;
        }
        Some((index, value))
    }

    /// Goes back to a position that [`next`](Self::next) marked.
    pub fn reset_to(&mut self, idx: RingBufIndex)
        requires
            old(self).wf(),
            old(self).owns(idx),
        ensures
            final(self).moved_from(*old(self)),
            final(self).index() == idx,
    {
        self.cursor = idx.cursor;
        self.wrap_state = idx.wrap_state;
    }

    /// Goes back by one value, if there is one before the iterator.
    pub fn back(&mut self) -> (moved: bool)
        requires
            old(self).wf(),
        ensures
            final(self).moved_from(*old(self)),
            moved == (old(self).position() > 0),
            moved ==> final(self).position() == old(self).position() - 1,
            !moved ==> final(self).index() == old(self).index(),
    {
        if self.cursor == self.guard.read_offset && self.wrap_state != WrapState::HasWrapped {
            return false;
        }
        if self.cursor == 0 {
            self.wrap_state = WrapState::MayWrap;
            self.cursor = self.guard.buffer.len() - 1;
        } else {
            self.cursor = self.cursor - 1;
        }
        true
    }

    /// Whether [`mark`](Self::mark) is to wake the writer.
    pub fn mark_wakes_writer(&self) -> (wakes: bool)
        ensures
            wakes == (self.ring().read_offset != self.cursor),
    {
        self.guard.read_offset != self.cursor
    }

    /// Drops the values before the iterator and hands out the one it stands at, which stays.
    pub fn mark(self) -> (res: Option<NonNotifyingSlot<'a, T>>)
        requires
            self.wf(),
        ensures
            res is Some <==> self.position() < self.ring()@.len() || self.wrap_state
                == WrapState::MayWrap,
            match res {
                Some(slot) => {
                    &&& slot.ring() == self.ring().marked(self.cursor, self.wrap_state)
                    &&& slot.slot == self.cursor
                    &&& *final(self.guard) == *final(slot.guard)
                    &&& slot.ring().wf()
                    &&& slot.ring()@ == self.ring()@.skip(self.position())
                    &&& self.ring().capacity() > 0 ==> {
                        &&& slot.slot < self.ring().capacity()
                        &&& slot.ring().buffer@[slot.slot as int] == self.ring()@[self.position()]
                    }
                },
                None => {
                    &&& self.position() == self.ring()@.len()
                    &&& *final(self.guard) == self.ring().marked(self.cursor, self.wrap_state)
                    &&& final(self.guard).wf()
                    &&& final(self.guard)@ == Seq::<T>::empty()
                },
            },
    {
        let guard = self.guard;
        proof {
            guard.lemma_marked(self.cursor, self.wrap_state);
        }
        guard.read_offset = self.cursor;
        guard.writer_wrapped = self.wrap_state == WrapState::MayWrap;
        if self.cursor == guard.write_offset && self.wrap_state != WrapState::MayWrap {
            return None;
        }
        Some(NonNotifyingSlot { guard, slot: self.cursor })
    }
}

impl<T> RingBuf<T> {
    /// An iterator at the oldest waiting value, with the next number of `counter`.
    pub fn read_iter(&mut self, counter: &mut u64) -> (iter: ReadIterator<'_, T>)
        requires
            old(self).wf(),
        ensures
            iter.wf(),
            iter.ring() == old(self).inner,
            iter.id.0 == *old(counter),
            *final(counter) == RingBufID::following(*old(counter)),
            iter.cursor == old(self).inner.read_offset,
            iter.position() == 0,
            *final(self) == old(self).with_inner(*final(iter.guard)),
    {
        let id = RingBufID::next(counter);
        let guard = &mut self.inner;
        let wrap_state = if guard.writer_wrapped {
            WrapState::MayWrap
        } else {
            WrapState::MayNotWrap
        };
        let cursor: usize = guard.read_offset;
        ReadIterator { id, guard, cursor, wrap_state }
    }
}

} // verus!
