use iobuf::{Arena, IORingbuf, OutOfBounds, ROIobuf, RWIobuf};

#[test]
fn empty_views_have_no_bytes() {
    let mut arena = Arena::new();
    let r = ROIobuf::empty(&mut arena);
    let w = RWIobuf::empty(&mut arena);
    assert_eq!(r.cap(), 0);
    assert_eq!(r.len(), 0);
    assert_eq!(w.cap(), 0);
    assert_eq!(w.len(), 0);
    assert!(r.is_empty());
    assert_eq!(arena.num_buffers(), 2);
}

#[test]
fn from_str_views_whole_string() {
    let mut arena = Arena::new();
    let b = ROIobuf::from_str(&mut arena, "hello");
    assert_eq!(b.cap(), 5);
    assert_eq!(b.len(), 5);
    assert_eq!(b.as_window_slice(&arena), b"hello");
    assert_eq!(b.as_limit_slice(&arena), b"hello");
}

#[test]
fn from_string_then_poke() {
    let mut arena = Arena::new();
    let b = RWIobuf::from_string(&mut arena, String::from("hello"));
    assert_eq!(b.poke_be(&mut arena, 1, b'4'), Ok(()));
    assert_eq!(b.len(), 5);
    assert_eq!(b.cap(), 5);
    assert_eq!(b.as_window_slice(&arena), b"h4llo");
    assert_eq!(b.as_limit_slice(&arena), b"h4llo");
    let r = ROIobuf::from_string(&mut arena, String::from("abc"));
    assert_eq!(r.as_window_slice(&arena), b"abc");
}

#[test]
fn from_vec_keeps_contents() {
    let mut arena = Arena::new();
    let mut v = vec![1u8, 2, 3, 4, 5, 6];
    v[1] = 20;
    let b = ROIobuf::from_vec(&mut arena, v);
    assert_eq!(b.as_window_slice(&arena), &[1u8, 20, 3, 4, 5, 6][..]);
    let w = RWIobuf::from_vec(&mut arena, vec![1u8, 20, 3, 4, 5, 6, 10]);
    assert_eq!(w.as_window_slice(&arena), &[1u8, 20, 3, 4, 5, 6, 10][..]);
}

#[test]
fn from_slice_advance_then_peek() {
    let mut arena = Arena::new();
    let s = [1u8, 2, 3, 4];
    let mut b = ROIobuf::from_slice(&mut arena, &s);
    assert_eq!(b.advance(1), Ok(()));
    assert_eq!(s[1], 2);
    assert_eq!(b.peek_be(&arena, 1), Ok(0x0304u16));
    let mut w = RWIobuf::from_slice(&mut arena, &s);
    assert_eq!(w.advance(1), Ok(()));
    assert_eq!(w.poke_be(&mut arena, 1, 100u8), Ok(()));
    assert_eq!(w.as_limit_slice(&arena), &[1u8, 2, 100, 4][..]);
}

#[test]
fn new_buffer_is_zeroed() {
    let mut arena = Arena::new();
    let b = RWIobuf::new(&mut arena, 10);
    assert_eq!(b.len(), 10);
    assert_eq!(b.cap(), 10);
    assert_eq!(b.as_window_slice(&arena), &[0u8; 10][..]);
}

#[test]
fn window_slice_mut_writes_in_place() {
    let mut arena = Arena::new();
    let mut b = RWIobuf::from_slice(&mut arena, &[1u8, 2, 3]);
    assert_eq!(b.advance(1), Ok(()));
    b.as_window_slice_mut(&mut arena)[1] = 30;
    assert_eq!(b.as_limit_slice(&arena), &[1u8, 2, 30][..]);
    b.as_limit_slice_mut(&mut arena)[1] = 20;
    assert_eq!(b.as_limit_slice(&arena), &[1u8, 20, 30][..]);
}

#[test]
fn read_only_shares_buffer() {
    let mut arena = Arena::new();
    let w = RWIobuf::from_slice(&mut arena, &[1u8, 2, 3, 4]);
    let r = w.read_only();
    assert_eq!(r.len(), 4);
    assert_eq!(w.poke_be(&mut arena, 0, 9u8), Ok(()));
    assert_eq!(r.peek_be(&arena, 0), Ok(9u8));
}

#[test]
fn poke_slices_all_or_nothing() {
    let mut arena = Arena::new();
    let data = [1u8, 2, 3, 4];
    let mut b = RWIobuf::new(&mut arena, 10);
    assert_eq!(b.poke(&mut arena, 0, &data), Ok(()));
    assert_eq!(b.poke(&mut arena, 3, &data), Ok(()));
    assert_eq!(b.resize(7), Ok(()));
    assert_eq!(b.poke(&mut arena, 4, &data), Err(OutOfBounds));
    assert_eq!(b.as_window_slice(&arena), &[1u8, 2, 3, 1, 2, 3, 4][..]);
}

#[test]
fn scenario_poke_be_then_resize() {
    let mut arena = Arena::new();
    let mut b = RWIobuf::new(&mut arena, 10);
    assert_eq!(b.poke_be(&mut arena, 0, 0x0304u16), Ok(()));
    assert_eq!(b.poke_be(&mut arena, 1, 0x0505u16), Ok(()));
    assert_eq!(b.poke_be(&mut arena, 3, 0x06070809u32), Ok(()));
    assert_eq!(b.resize(7), Ok(()));
    assert_eq!(b.as_window_slice(&arena), &[3u8, 5, 5, 6, 7, 8, 9][..]);
}

#[test]
fn scenario_consume_then_compact() {
    let mut arena = Arena::new();
    let mut b = RWIobuf::from_slice(&mut arena, &[0x02u8, 0x11, 0x22, 0x33]);
    assert_eq!(b.consume_be::<u8>(&arena), Ok(2));
    assert_eq!(b.as_window_slice(&arena), &[0x11u8, 0x22, 0x33][..]);
    assert_eq!(b.consume_be::<u8>(&arena), Ok(0x11));
    assert_eq!(b.consume_be::<u8>(&arena), Ok(0x22));
    assert_eq!(b.as_window_slice(&arena), &[0x33u8][..]);
    assert_eq!(b.len(), 1);
    b.compact(&mut arena);
    assert_eq!(b.len(), 3);
    assert_eq!(b.cap(), 4);
    assert_eq!(b.as_limit_slice(&arena)[0], 0x33);
    assert_eq!(b.peek_be(&arena, 0), Ok(0x11u8));
}

#[test]
fn parse_with_unchecked_reads_then_compact() {
    let mut arena = Arena::new();
    let mut b = RWIobuf::from_slice(&mut arena, &[0x02u8, 0x11, 0x22, 0x33]);
    let count: u8 = b.consume_be(&arena).unwrap();
    let mut sum = 0u16;
    let mut done = true;
    for _ in 0..count {
        if b.len() < 2 {
            b.compact(&mut arena);
            done = false;
            break;
        }
        b.check_range_fail(0, 2);
        sum += b.unsafe_consume_be::<u16>(&arena);
    }
    assert!(!done);
    assert_eq!(sum, 0x1122);
    assert_eq!(b.len(), 3);
    assert_eq!(b.cap(), 4);
    assert_eq!(b.peek_be(&arena, 0), Ok(0x11u8));
}

#[test]
fn ring_fill_past_input_half_fails() {
    let mut ring = IORingbuf::new(10);
    let (input, arena) = ring.push_buf();
    assert_eq!(input.len(), 5);
    assert_eq!(input.fill(arena, &[1, 2, 3, 4, 5, 6]), Err(OutOfBounds));
    assert_eq!(input.len(), 5);
    assert!(ring.is_empty());
}

#[test]
fn scenario_ring_pop_swaps_in_filled_bytes() {
    let mut ring = IORingbuf::new(12);
    assert!(ring.is_empty());
    assert!(!ring.is_full());
    {
        let (input, arena) = ring.push_buf();
        assert_eq!(input.fill(arena, &[1, 2, 3, 4, 5, 6]), Ok(()));
    }
    assert!(ring.is_full());
    {
        let (output, arena) = ring.pop_buf();
        assert_eq!(output.as_window_slice(arena), &[1u8, 2, 3, 4, 5, 6][..]);
    }
    assert!(!ring.is_full());
    assert!(!ring.is_empty());
    {
        let (output, arena) = ring.pop_buf();
        let mut got = [0u8; 6];
        assert_eq!(output.consume(arena, &mut got), Ok(()));
        assert_eq!(got, [1, 2, 3, 4, 5, 6]);
        assert!(output.is_empty());
    }
    assert!(ring.is_empty());
}

#[test]
fn ring_odd_capacity_splits_low_half_to_input() {
    let mut ring = IORingbuf::new(7);
    let (input, _) = ring.push_buf();
    assert_eq!(input.len(), 3);
    let (output, _) = ring.pop_buf();
    assert_eq!(output.len(), 0);
    assert_eq!(output.cap(), 3);
    let (input, _) = ring.push_buf();
    assert_eq!(input.len(), 4);
}

#[test]
fn narrow_twice_same_as_once() {
    let mut arena = Arena::new();
    let mut b = RWIobuf::new(&mut arena, 10);
    assert_eq!(b.sub_window(2, 5), Ok(()));
    b.narrow();
    assert_eq!((b.cap(), b.len()), (5, 5));
    b.narrow();
    assert_eq!((b.cap(), b.len()), (5, 5));
    b.rewind();
    assert_eq!(b.len(), 5);
}

#[test]
fn reset_then_rewind_is_fresh() {
    let mut arena = Arena::new();
    let mut b = RWIobuf::new(&mut arena, 8);
    assert_eq!(b.sub(1, 4), Ok(()));
    assert_eq!(b.advance(2), Ok(()));
    b.reset();
    b.rewind();
    assert_eq!(b.len(), 8);
    assert_eq!(b.cap(), 8);
    assert_eq!(b.peek_be(&arena, 7), Ok(0u8));
}

#[test]
fn round_trip_every_type_both_orders() {
    let mut arena = Arena::new();
    let b = RWIobuf::new(&mut arena, 12);
    b.poke_be(&mut arena, 3, 0xabu8).unwrap();
    assert_eq!(b.peek_be(&arena, 3), Ok(0xabu8));
    b.poke_le(&mut arena, 3, -5i8).unwrap();
    assert_eq!(b.peek_le(&arena, 3), Ok(-5i8));
    b.poke_be(&mut arena, 3, 0xbeefu16).unwrap();
    assert_eq!(b.peek_be(&arena, 3), Ok(0xbeefu16));
    b.poke_le(&mut arena, 3, -2i16).unwrap();
    assert_eq!(b.peek_le(&arena, 3), Ok(-2i16));
    b.poke_be(&mut arena, 4, 0xdeadbeefu32).unwrap();
    assert_eq!(b.peek_be(&arena, 4), Ok(0xdeadbeefu32));
    b.poke_le(&mut arena, 4, i32::MIN).unwrap();
    assert_eq!(b.peek_le(&arena, 4), Ok(i32::MIN));
    b.poke_be(&mut arena, 4, u64::MAX - 1).unwrap();
    assert_eq!(b.peek_be(&arena, 4), Ok(u64::MAX - 1));
    b.poke_le(&mut arena, 4, -1234567890123i64).unwrap();
    assert_eq!(b.peek_le(&arena, 4), Ok(-1234567890123i64));
    b.poke_be(&mut arena, 0, i64::MIN).unwrap();
    assert_eq!(b.peek_be(&arena, 0), Ok(i64::MIN));
    b.poke_le(&mut arena, 0, 0x0102030405060708u64).unwrap();
    assert_eq!(b.peek_le(&arena, 0), Ok(0x0102030405060708u64));
}

#[test]
fn byte_order_is_exact() {
    let mut arena = Arena::new();
    let b = RWIobuf::new(&mut arena, 8);
    b.poke_be(&mut arena, 0, 0x01020304u32).unwrap();
    b.poke_le(&mut arena, 4, 0x01020304u32).unwrap();
    assert_eq!(b.as_window_slice(&arena), &[1u8, 2, 3, 4, 4, 3, 2, 1][..]);
    assert_eq!(b.peek_le(&arena, 0), Ok(0x04030201u32));
    assert_eq!(b.peek_be(&arena, 2), Ok(0x0304u16));
    assert_eq!(b.peek_be(&arena, 0), Ok(0x0102030404030201u64));
    b.poke_be(&mut arena, 0, -2i16).unwrap();
    assert_eq!(b.peek_be(&arena, 0), Ok(0xfffeu16));
}

#[test]
fn one_past_end_is_refused_without_change() {
    let mut arena = Arena::new();
    let mut b = RWIobuf::from_slice(&mut arena, &[1u8, 2, 3, 4]);
    let mut dst = [9u8; 3];
    assert_eq!(b.peek(&arena, 2, &mut dst), Err(OutOfBounds));
    assert_eq!(dst, [9, 9, 9]);
    assert_eq!(b.poke(&mut arena, 2, &[7, 7, 7]), Err(OutOfBounds));
    assert_eq!(b.as_window_slice(&arena), &[1u8, 2, 3, 4][..]);
    let mut five = [0u8; 5];
    assert_eq!(b.consume(&arena, &mut five), Err(OutOfBounds));
    assert_eq!(b.len(), 4);
    assert_eq!(b.fill(&mut arena, &[7, 7, 7, 7, 7]), Err(OutOfBounds));
    assert_eq!(b.len(), 4);
    assert_eq!(b.peek_be::<u32>(&arena, 1), Err(OutOfBounds));
    assert_eq!(b.consume_le::<u64>(&arena), Err(OutOfBounds));
    assert_eq!(b.fill_be(&mut arena, 1u64), Err(OutOfBounds));
    assert_eq!(b.len(), 4);
    assert_eq!(b.peek(&arena, 1, &mut dst), Ok(()));
    assert_eq!(dst, [2, 3, 4]);
    assert_eq!(b.check_range(1, 3), Ok(()));
    assert_eq!(b.check_range(2, 3), Err(OutOfBounds));
    assert_eq!(b.check_range_uint(4, 0), Ok(()));
    assert_eq!(b.check_range_uint(5, 0), Err(OutOfBounds));
}

#[test]
fn fill_flip_consume_gives_bytes_back() {
    let mut arena = Arena::new();
    let mut b = RWIobuf::new(&mut arena, 6);
    assert_eq!(b.fill(&mut arena, &[5, 6, 7]), Ok(()));
    assert_eq!(b.fill_be(&mut arena, 0x0809u16), Ok(()));
    b.flip_lo();
    assert_eq!(b.len(), 5);
    let mut got = [0u8; 5];
    assert_eq!(b.consume(&arena, &mut got), Ok(()));
    assert_eq!(got, [5, 6, 7, 8, 9]);
    assert!(b.is_empty());
    b.flip_hi();
    assert_eq!(b.len(), 1);
}

#[test]
fn clones_move_apart_but_share_bytes() {
    let mut arena = Arena::new();
    let mut a = RWIobuf::new(&mut arena, 4);
    let b = a.clone();
    assert_eq!(a.advance(2), Ok(()));
    assert_eq!(a.len(), 2);
    assert_eq!(b.len(), 4);
    assert_eq!(a.poke_be(&mut arena, 0, 0x7fu8), Ok(()));
    assert_eq!(b.peek_be(&arena, 2), Ok(0x7fu8));
}

#[test]
fn deep_clone_breaks_sharing() {
    let mut arena = Arena::new();
    let mut o = RWIobuf::from_slice(&mut arena, &[1u8, 2, 3, 4, 5]);
    assert_eq!(o.sub_window(1, 3), Ok(()));
    let c = o.deep_clone(&mut arena);
    assert_eq!(c.len(), 3);
    assert_eq!(c.cap(), 3);
    assert_eq!(c.as_limit_slice(&arena), &[2u8, 3, 4][..]);
    assert_eq!(c.poke_be(&mut arena, 0, 0xffu8), Ok(()));
    assert_eq!(o.as_window_slice(&arena), &[2u8, 3, 4][..]);
    assert_eq!(o.poke_be(&mut arena, 2, 0xeeu8), Ok(()));
    assert_eq!(c.as_window_slice(&arena), &[0xffu8, 3, 4][..]);
    let r = o.read_only().deep_clone(&mut arena);
    assert_eq!(r.as_window_slice(&arena), &[2u8, 3, 0xee][..]);
}

#[test]
fn sub_window_keeps_limits_sub_narrows() {
    let mut arena = Arena::new();
    let mut b = RWIobuf::new(&mut arena, 10);
    assert_eq!(b.sub_window(2, 3), Ok(()));
    assert_eq!((b.len(), b.cap()), (3, 10));
    assert_eq!(b.sub_window(1, 3), Err(OutOfBounds));
    assert_eq!(b.sub_window_from(1), Ok(()));
    assert_eq!(b.len(), 2);
    assert_eq!(b.sub_window_from(3), Err(OutOfBounds));
    assert_eq!(b.sub_window_to(1), Ok(()));
    assert_eq!(b.len(), 1);
    assert_eq!(b.sub_window_to(2), Err(OutOfBounds));
    b.rewind();
    assert_eq!(b.len(), 10);
    assert_eq!(b.sub(2, 9), Err(OutOfBounds));
    assert_eq!(b.sub(2, 8), Ok(()));
    assert_eq!((b.len(), b.cap()), (8, 8));
    assert_eq!(b.sub_from(9), Err(OutOfBounds));
    assert_eq!(b.sub_from(3), Ok(()));
    assert_eq!((b.len(), b.cap()), (5, 5));
    assert_eq!(b.sub_to(6), Err(OutOfBounds));
    assert_eq!(b.sub_to(2), Ok(()));
    assert_eq!((b.len(), b.cap()), (2, 2));
    b.rewind();
    assert_eq!(b.len(), 2);
}

#[test]
fn sub_checks_limits_not_window() {
    let mut arena = Arena::new();
    let mut b = RWIobuf::new(&mut arena, 10);
    assert_eq!(b.resize(2), Ok(()));
    assert_eq!(b.sub(1, 5), Ok(()));
    assert_eq!((b.len(), b.cap()), (5, 5));
    assert_eq!(b.sub_to(5), Ok(()));
}

#[test]
fn unchecked_navigation_matches_checked() {
    let mut arena = Arena::new();
    let mut b = ROIobuf::from_slice(&mut arena, &[0u8, 1, 2, 3, 4, 5, 6, 7]);
    b.check_range_uint_fail(0, 8);
    b.unsafe_sub_window(1, 6);
    assert_eq!(b.peek_be(&arena, 0), Ok(1u8));
    b.unsafe_sub_window_from(1);
    b.unsafe_sub_window_to(4);
    assert_eq!(b.as_window_slice(&arena), &[2u8, 3, 4, 5][..]);
    b.unsafe_advance(1);
    b.unsafe_extend(2);
    assert_eq!(b.as_window_slice(&arena), &[3u8, 4, 5, 6, 7][..]);
    b.unsafe_resize(2);
    assert_eq!(b.as_window_slice(&arena), &[3u8, 4][..]);
    b.unsafe_sub(1, 3);
    assert_eq!((b.len(), b.cap()), (3, 3));
    b.unsafe_sub_from(1);
    b.unsafe_sub_to(1);
    assert_eq!(b.as_limit_slice(&arena), &[5u8][..]);
    assert_eq!(b.unsafe_peek_le::<u8>(&arena, 0), 5);
    let mut one = [0u8; 1];
    b.unsafe_peek(&arena, 0, &mut one);
    assert_eq!(one, [5]);
    b.unsafe_consume(&arena, &mut one);
    assert!(b.is_empty());
}

#[test]
fn unchecked_writes_match_checked() {
    let mut arena = Arena::new();
    let mut b = RWIobuf::new(&mut arena, 12);
    b.check_range_fail(0, 12);
    b.unsafe_poke(&mut arena, 0, &[1, 2]);
    b.unsafe_poke_be(&mut arena, 2, 0x0304u16);
    b.unsafe_poke_le(&mut arena, 4, 0x0605u16);
    assert_eq!(b.unsafe_peek_be::<u32>(&arena, 0), 0x01020304);
    assert_eq!(b.unsafe_peek_le::<u16>(&arena, 4), 0x0605);
    b.unsafe_advance(6);
    b.unsafe_fill(&mut arena, &[7]);
    b.unsafe_fill_be(&mut arena, 0x0809u16);
    b.unsafe_fill_le(&mut arena, 0x0b0au16);
    b.unsafe_fill_be(&mut arena, 0x0cu8);
    assert!(b.is_empty());
    b.flip_lo();
    assert_eq!(b.as_window_slice(&arena), &[1u8, 2, 3, 4, 5, 6, 7, 8, 9, 10, 11, 12][..]);
    assert_eq!(b.unsafe_consume_be::<u16>(&arena), 0x0102);
    assert_eq!(b.unsafe_consume_le::<u16>(&arena), 0x0403);
    assert_eq!(b.consume_le::<u16>(&arena), Ok(0x0605));
    assert_eq!(b.len(), 6);
}

#[test]
fn extend_and_resize_stay_within_limits() {
    let mut arena = Arena::new();
    let mut b = RWIobuf::new(&mut arena, 6);
    assert_eq!(b.resize(2), Ok(()));
    assert_eq!(b.extend(4), Ok(()));
    assert_eq!(b.len(), 6);
    assert_eq!(b.extend(1), Err(OutOfBounds));
    assert_eq!(b.advance(7), Err(OutOfBounds));
    assert_eq!(b.advance(6), Ok(()));
    assert_eq!(b.resize(1), Err(OutOfBounds));
    assert_eq!(b.len(), 0);
}

#[test]
fn set_limits_and_window_cannot_widen() {
    let mut arena = Arena::new();
    let mut b = RWIobuf::new(&mut arena, 10);
    assert_eq!(b.set_limits_and_window((2, 8), (3, 5)), Ok(()));
    assert_eq!((b.len(), b.cap()), (2, 6));
    assert_eq!(b.set_limits_and_window((1, 8), (3, 5)), Err(OutOfBounds));
    assert_eq!(b.set_limits_and_window((2, 9), (3, 5)), Err(OutOfBounds));
    assert_eq!(b.set_limits_and_window((2, 8), (5, 3)), Err(OutOfBounds));
    assert_eq!(b.set_limits_and_window((3, 4), (3, 5)), Err(OutOfBounds));
    assert_eq!((b.len(), b.cap()), (2, 6));
    b.reset();
    assert_eq!((b.len(), b.cap()), (10, 10));
}

#[test]
fn is_extended_by_needs_same_buffer_and_touching_windows() {
    let mut arena = Arena::new();
    let mut a = RWIobuf::new(&mut arena, 8);
    let mut b = a.read_only();
    assert_eq!(a.resize(3), Ok(()));
    assert_eq!(b.advance(3), Ok(()));
    assert!(a.is_extended_by_ro(&b));
    assert!(!b.is_extended_by_rw(&a));
    let c = RWIobuf::new(&mut arena, 8);
    assert!(!a.is_extended_by_rw(&c));
    assert_eq!(b.advance(1), Ok(()));
    assert!(!a.is_extended_by_ro(&b));
}

