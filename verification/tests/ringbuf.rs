use ffmpeg_player::ringbuf::{
    AcquireError, RingBuf, RingBufID, Side, TryAcquireError, WrapState,
};

#[test]
fn test_ringbuf_one_slot() {
    let mut ringbuf = RingBuf::new(1, || 0, "");
    assert!(ringbuf.try_read().is_err());
    *ringbuf.try_write().unwrap().deref_mut() = 1;
    assert!(ringbuf.try_write().is_err());
    assert_eq!(*ringbuf.try_read().unwrap().deref(), 1);
    assert!(ringbuf.try_read().is_err());
    assert!(ringbuf.try_write().is_ok());
}

#[test]
fn test_ringbuf_multi_slot() {
    let mut ringbuf = RingBuf::new(3, || 0, "");
    assert!(ringbuf.try_read().is_err());
    *ringbuf.try_write().unwrap().deref_mut() = 1;
    *ringbuf.try_write().unwrap().deref_mut() = 2;
    let mut s = ringbuf.try_write().unwrap();
    *s.deref_mut() = 2;
    s.do_not_consume();
    *ringbuf.try_write().unwrap().deref_mut() = 3;
    assert!(ringbuf.try_write().is_err());
    assert_eq!(*ringbuf.try_read().unwrap().deref(), 1);
    assert_eq!(*ringbuf.try_read().unwrap().deref(), 2);
    let mut s = ringbuf.try_write().unwrap();
    *s.deref_mut() = 999;
    s.do_not_consume();
    *ringbuf.try_write().unwrap().deref_mut() = 4;
    *ringbuf.try_write().unwrap().deref_mut() = 5;
    assert_eq!(*ringbuf.try_read().unwrap().deref(), 3);
    let s = ringbuf.try_read().unwrap();
    assert_eq!(*s.deref(), 4);
    s.do_not_consume();
    assert_eq!(*ringbuf.try_read().unwrap().deref(), 4);
    assert_eq!(*ringbuf.try_read().unwrap().deref(), 5);
    assert!(ringbuf.try_read().is_err());
}

#[test]
fn test_ringbuf_end() {
    let mut ringbuf = RingBuf::new(3, || 0, "");
    assert!(ringbuf.try_write().is_ok());
    assert!(ringbuf.try_read().is_ok());
    assert!(ringbuf.try_write().is_ok());
    assert!(ringbuf.try_read().is_ok());
    ringbuf.try_write().unwrap().do_not_consume();
    assert!(ringbuf.try_read().is_err());

    assert!(ringbuf.try_write().is_ok());
    assert!(ringbuf.try_write().is_ok());
    assert!(ringbuf.try_write().is_ok());
    ringbuf.try_read().unwrap().do_not_consume();
    assert!(ringbuf.try_write().is_err());
}

#[test]
fn test_ringbuf_iter() {
    let mut counter = 0;
    let mut ringbuf = RingBuf::new(3, || 0, "");
    *ringbuf.try_write().unwrap().deref_mut() = 1;
    *ringbuf.try_write().unwrap().deref_mut() = 2;
    *ringbuf.try_write().unwrap().deref_mut() = 3;
    assert_eq!(ringbuf.inner.read_offset, ringbuf.inner.write_offset);

    let mut iter = ringbuf.read_iter(&mut counter);
    assert!(!iter.back());
    assert_eq!(iter.next().map(|x| x.1), Some(&1));
    assert_eq!(iter.next().map(|x| x.1), Some(&2));
    assert_eq!(iter.next().map(|x| x.1), Some(&3));
    assert_eq!(iter.next().map(|x| x.1), None);
    assert!(iter.back());
    assert!(iter.back());
    assert!(iter.back());

    assert_eq!(iter.next().map(|x| x.1), Some(&1));
    assert_eq!(iter.next().map(|x| x.1), Some(&2));
    assert_eq!(iter.next().map(|x| x.1), Some(&3));
    assert_eq!(iter.next().map(|x| x.1), None);
    assert!(iter.back());
    assert!(iter.back());
    assert!(iter.back());
    assert!(!iter.back());

    let mut ringbuf = RingBuf::new(5, || 0, "");
    *ringbuf.try_write().unwrap().deref_mut() = 1;
    *ringbuf.try_write().unwrap().deref_mut() = 2;

    let mut iter = ringbuf.read_iter(&mut counter);

    assert_eq!(iter.next().map(|x| x.1), Some(&1));
    assert_eq!(iter.next().map(|x| x.1), Some(&2));
    assert_eq!(iter.next().map(|x| x.1), None);
    assert!(iter.back());
    assert!(iter.back());
    assert!(!iter.back());

    let mut ringbuf = RingBuf::new(3, || 0, "");
    ringbuf.try_write().unwrap();
    *ringbuf.try_write().unwrap().deref_mut() = 1;
    *ringbuf.try_write().unwrap().deref_mut() = 2;
    ringbuf.try_read().unwrap(); // advance the read cursor to a nonzero position.

    let mut iter = ringbuf.read_iter(&mut counter);

    assert_eq!(iter.next().map(|x| x.1), Some(&1));
    assert_eq!(iter.next().map(|x| x.1), Some(&2));
    assert_eq!(iter.next().map(|x| x.1), None);
    assert!(iter.back());
    assert!(iter.back());
    assert!(!iter.back());

    // ensure the read range straddles the wrap point.
    let mut ringbuf = RingBuf::new(3, || 0, "");
    ringbuf.try_write().unwrap();
    ringbuf.try_read().unwrap();
    ringbuf.try_write().unwrap();
    ringbuf.try_read().unwrap();
    *ringbuf.try_write().unwrap().deref_mut() = 1;
    *ringbuf.try_write().unwrap().deref_mut() = 2;

    let mut iter = ringbuf.read_iter(&mut counter);

    assert_eq!(iter.next().map(|x| x.1), Some(&1));
    assert_eq!(iter.next().map(|x| x.1), Some(&2));
    assert_eq!(iter.next().map(|x| x.1), None);
    assert!(iter.back());
    assert!(iter.back());
    assert!(!iter.back());

    let mut ringbuf = RingBuf::new(5, || 0, "");
    ringbuf.try_write().unwrap();
    ringbuf.try_read().unwrap();
    ringbuf.try_write().unwrap();
    ringbuf.try_read().unwrap();
    ringbuf.try_write().unwrap();
    ringbuf.try_read().unwrap();
    *ringbuf.try_write().unwrap().deref_mut() = 1;
    *ringbuf.try_write().unwrap().deref_mut() = 2;
    *ringbuf.try_write().unwrap().deref_mut() = 3;
    *ringbuf.try_write().unwrap().deref_mut() = 4;
    *ringbuf.try_write().unwrap().deref_mut() = 5;

    assert_eq!(*ringbuf.inner.buffer, [3, 4, 5, 1, 2]);

    let mut iter = ringbuf.read_iter(&mut counter);

    assert!(!iter.back());
    assert_eq!(iter.next().map(|x| x.1), Some(&1));
    assert_eq!(iter.next().map(|x| x.1), Some(&2));
    assert_eq!(iter.next().map(|x| x.1), Some(&3));
    assert_eq!(iter.next().map(|x| x.1), Some(&4));
    assert_eq!(iter.next().map(|x| x.1), Some(&5));
    assert_eq!(iter.next().map(|x| x.1), None);
    assert!(iter.back());
    assert!(iter.back());
    assert!(iter.back());
    assert!(iter.back());
    assert!(iter.back());
    assert!(!iter.back());
    assert_eq!(iter.next().map(|x| x.1), Some(&1));
    assert_eq!(iter.next().map(|x| x.1), Some(&2));
    assert_eq!(iter.next().map(|x| x.1), Some(&3));
    assert_eq!(iter.next().map(|x| x.1), Some(&4));
    assert_eq!(iter.next().map(|x| x.1), Some(&5));
    assert_eq!(iter.next().map(|x| x.1), None);

    let mut ringbuf = RingBuf::new(5, || 0, "");
    let mut iter = ringbuf.read_iter(&mut counter);
    assert!(!iter.back());
    assert_eq!(iter.next().map(|x| x.1), None);
    assert!(!iter.back());
}

fn filled(values: &[u32], size: usize) -> RingBuf<u32> {
    let mut ring = RingBuf::new(size, || 0, "filled");
    for value in values {
        *ring.try_write().unwrap().deref_mut() = *value;
    }
    ring
}

#[test]
fn new_buffer_is_empty_and_initialised() {
    let mut next: u32 = 10;
    let ring = RingBuf::new(
        3,
        || {
            next += 1;
            next
        },
        "counted",
    );
    assert_eq!(ring.inner.buffer, vec![11, 12, 13]);
    assert_eq!(ring.inner.read_offset, 0);
    assert_eq!(ring.inner.write_offset, 0);
    assert!(!ring.inner.writer_wrapped);
    assert!(!ring.inner.reader_closed);
    assert!(!ring.inner.writer_closed);
    assert_eq!(ring.debug_name, "counted");
}

#[test]
fn values_are_read_in_the_order_they_were_written() {
    let mut ring = RingBuf::new(4, || 0, "");
    let mut expected: u32 = 0;
    for value in 0..100u32 {
        *ring.try_write().unwrap().deref_mut() = value;
        if value % 3 != 0 {
            assert_eq!(*ring.try_read().unwrap().deref(), expected);
            expected += 1;
            if value % 2 == 0 && expected <= value {
                assert_eq!(*ring.try_read().unwrap().deref(), expected);
                expected += 1;
            }
        }
        if value + 1 - expected == 4 {
            assert_eq!(ring.try_write().err(), Some(TryAcquireError::NotReady));
            assert_eq!(*ring.try_read().unwrap().deref(), expected);
            expected += 1;
        }
    }
    while expected < 100 {
        assert_eq!(*ring.try_read().unwrap().deref(), expected);
        expected += 1;
    }
    assert_eq!(ring.try_read().err(), Some(TryAcquireError::NotReady));
}

#[test]
fn closed_writer_lets_the_reader_finish() {
    let mut ring = filled(&[1, 2], 3);
    assert!(ring.inner.read_offset == 0 && !ring.inner.writer_closed);
    ring.close_write();
    assert_eq!(*ring.try_read().unwrap().deref(), 1);
    match ring.read() {
        Some(Ok(slot)) => assert_eq!(*slot.deref(), 2),
        _ => panic!("a value was left"),
    }
    assert_eq!(ring.try_read().err(), Some(TryAcquireError::ChannelClosed));
    assert!(matches!(ring.read(), Some(Err(AcquireError::ChannelClosed))));
}

#[test]
fn closed_reader_refuses_the_writer() {
    let mut ring = filled(&[1], 3);
    ring.close_read();
    assert_eq!(ring.try_write().err(), Some(TryAcquireError::ChannelClosed));
    assert!(matches!(ring.write(), Some(Err(AcquireError::ChannelClosed))));
    assert_eq!(*ring.try_read().unwrap().deref(), 1);
}

#[test]
fn empty_and_full_buffers_make_their_sides_wait() {
    let mut ring = filled(&[], 1);
    assert!(ring.read().is_none());
    match ring.write() {
        Some(Ok(mut slot)) => {
            *slot.deref_mut() = 5;
            assert_eq!(slot.finish(), Side::Reader);
        }
        _ => panic!("the buffer is empty"),
    }
    assert!(ring.write().is_none());
    match ring.read() {
        Some(Ok(slot)) => {
            assert_eq!(*slot.deref(), 5);
            assert_eq!(slot.finish(), Side::Writer);
        }
        _ => panic!("the buffer is full"),
    }
    assert!(ring.read().is_none());
}

#[test]
fn unconsumed_slot_comes_again() {
    let mut ring = filled(&[1, 2], 2);
    let slot = ring.try_read().unwrap();
    let first = slot.slot;
    slot.do_not_consume();
    let slot = ring.try_read().unwrap();
    assert_eq!(slot.slot, first);
    slot.finish();

    let mut slot = ring.try_write().unwrap();
    let first = slot.slot;
    *slot.deref_mut() = 77;
    slot.do_not_consume();
    assert_eq!(ring.inner.write_offset, first);
    let slot = ring.try_write().unwrap();
    assert_eq!(slot.slot, first);
    slot.do_not_consume();
    assert_eq!(*ring.try_read().unwrap().deref(), 2);
    assert!(ring.try_read().is_err());
}

#[test]
fn mark_drops_what_lies_before() {
    let mut counter = 0;
    let mut ring = filled(&[1, 2, 3], 4);
    let mut iter = ring.read_iter(&mut counter);
    assert!(!iter.mark_wakes_writer());
    iter.next();
    iter.next();
    assert!(iter.mark_wakes_writer());
    let slot = iter.mark().unwrap();
    assert_eq!(*slot.deref(), 3);
    assert_eq!(*ring.try_read().unwrap().deref(), 3);
    assert!(ring.try_read().is_err());
}

#[test]
fn mark_past_the_last_value_empties_the_buffer() {
    let mut counter = 0;
    let mut ring = filled(&[1, 2, 3], 3);
    let mut iter = ring.read_iter(&mut counter);
    while iter.next().is_some() {}
    assert_eq!(iter.wrap_state, WrapState::HasWrapped);
    // the cursor has come round to where the reader stands
    assert!(!iter.mark_wakes_writer());
    assert!(iter.mark().is_none());
    assert!(ring.try_read().is_err());
    assert!(ring.try_write().is_ok());
}

#[test]
fn reset_leads_back_to_a_marked_value() {
    let mut counter = 0;
    let mut ring = filled(&[0, 0, 1, 2], 4);
    ring.try_read().unwrap();
    ring.try_read().unwrap();
    *ring.try_write().unwrap().deref_mut() = 3;
    let mut iter = ring.read_iter(&mut counter);
    iter.next();
    let (index, value) = iter.next().unwrap();
    assert_eq!(*value, 2);
    assert_eq!(iter.next().map(|x| *x.1), Some(3));
    assert!(iter.next().is_none());
    iter.reset_to(index);
    assert_eq!(iter.next().map(|x| *x.1), Some(2));
    assert_eq!(iter.next().map(|x| *x.1), Some(3));
}

#[test]
fn back_undoes_next() {
    let mut counter = 0;
    let mut ring = filled(&[1, 2, 3], 3);
    ring.try_read().unwrap();
    *ring.try_write().unwrap().deref_mut() = 4;
    let mut iter = ring.read_iter(&mut counter);
    for _ in 0..3 {
        let before = (iter.cursor, iter.wrap_state);
        iter.next().unwrap();
        assert!(iter.back());
        assert_eq!((iter.cursor, iter.wrap_state), before);
        iter.next().unwrap();
    }
    assert!(iter.next().is_none());
}

#[test]
fn iterators_are_numbered() {
    let mut ring = filled(&[1], 1);
    let mut other = filled(&[1], 1);
    let mut counter = 0;
    assert_eq!(ring.read_iter(&mut counter).id, RingBufID(0));
    assert_eq!(other.read_iter(&mut counter).id, RingBufID(1));
    assert_eq!(ring.read_iter(&mut counter).id, RingBufID(2));
    assert_eq!(counter, 3);
    let mut counter = u64::MAX;
    assert_eq!(RingBufID::next(&mut counter), RingBufID(u64::MAX));
    assert_eq!(counter, 0);
}

#[test]
fn marks_name_their_iterator() {
    let mut ring = filled(&[1, 2], 2);
    let mut other = filled(&[3, 4], 2);
    let mut counter = 0;
    let mut one = ring.read_iter(&mut counter);
    let mut two = other.read_iter(&mut counter);
    let (mark, _) = one.next().unwrap();
    assert_eq!(mark.iterator_id, one.id);
    assert_ne!(mark.iterator_id, two.id);
    let (mark, _) = two.next().unwrap();
    assert_eq!(mark.iterator_id, two.id);
}

#[test]
fn new_buffer_takes_its_size() {
    let mut ring = RingBuf::new(3, || 8, "");
    assert_eq!(ring.try_read().err(), Some(TryAcquireError::NotReady));
    for i in 0..3 {
        let slot = ring.try_write().unwrap();
        assert_eq!(slot.slot, i);
        assert_eq!(*slot.deref(), 8);
        slot.finish();
    }
    assert_eq!(ring.try_write().err(), Some(TryAcquireError::NotReady));
}

#[test]
fn values_taken_are_those_written() {
    let mut ring = RingBuf::new(3, || 0, "");
    let mut written = vec![];
    let mut taken = vec![];
    for i in 1..200 {
        if let Ok(mut slot) = ring.try_write() {
            *slot.deref_mut() = i;
            if i % 3 == 0 {
                slot.do_not_consume();
            } else {
                slot.finish();
                written.push(i);
            }
        }
        for _ in 0..(i % 5) / 2 {
            if let Ok(slot) = ring.try_read() {
                let value = *slot.deref();
                if i % 7 == 0 {
                    slot.do_not_consume();
                } else {
                    slot.finish();
                    taken.push(value);
                }
            }
        }
        assert_eq!(taken[..], written[..taken.len()]);
        assert!(written.len() - taken.len() <= 3);
    }
    assert!(taken.len() > 50);
}

#[test]
fn buffer_without_slots_never_has_a_value() {
    let mut counter = 0;
    let mut ring = filled(&[], 0);
    assert_eq!(ring.try_read().err(), Some(TryAcquireError::NotReady));
    let mut iter = ring.read_iter(&mut counter);
    assert!(iter.next().is_none());
    assert!(!iter.back());
    assert!(iter.mark().is_none());
}
