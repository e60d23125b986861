use serial_link::frame_buffer::FrameBuffer;
use serial_link::receiver::{emitted_text, lpuart2_interrupt, parse_message, Framing, Receiver};

/// A receiver whose buffer holds `bytes` from the start on, the cursor behind
/// them, reached by storing them into a fresh one.
fn holding<const N: usize>(framing: Framing, bytes: &[u8]) -> Receiver<N> {
    let mut receiver = Receiver::<N>::new(framing);
    for byte in bytes {
        receiver.accept(*byte);
    }
    receiver
}

fn text(chars: &[char]) -> String {
    chars.iter().collect()
}

#[test]
fn fresh_receiver_is_clear_and_idle() {
    let receiver = Receiver::<64>::new(Framing::FixedSize(25));
    assert_eq!(receiver.framing(), Framing::FixedSize(25));
    assert!(!receiver.is_pending());
    assert!(!receiver.has_unread());
    assert_eq!(receiver.buffer().cursor(), 0);
    assert_eq!(receiver.buffer().capacity(), 64);
    assert!(receiver.buffer().is_clear());
    assert_eq!(receiver.buffer().bytes(), &[0u8; 64]);
}

#[test]
fn hello_one_byte_at_a_time_with_fixed_size_six() {
    let mut receiver = Receiver::<64>::new(Framing::FixedSize(6));
    let bytes = b"Hello\0";
    for (i, byte) in bytes.iter().enumerate() {
        let dispatch = lpuart2_interrupt(&mut receiver, &[*byte]);
        assert_eq!(dispatch, i == 5, "byte {}", i);
        assert_eq!(receiver.buffer().cursor(), i + 1);
    }
    assert!(receiver.is_pending());
    let mut work = [0u8; 64];
    let emitted = parse_message(&mut receiver, &mut work);
    assert_eq!(emitted, vec!['H', 'e', 'l', 'l', 'o']);
    assert_eq!(text(&emitted), "Hello");
    assert_eq!(&work[..6], b"Hello\0");
    assert_eq!(receiver.buffer().cursor(), 0);
    assert!(receiver.buffer().is_clear());
    assert!(!receiver.is_pending());
}

#[test]
fn hello_in_one_burst_with_fixed_size_six() {
    let mut receiver = Receiver::<64>::new(Framing::FixedSize(6));
    assert!(lpuart2_interrupt(&mut receiver, b"Hello\0"));
    assert_eq!(receiver.buffer().cursor(), 6);
    let mut work = [0u8; 64];
    assert_eq!(text(&parse_message(&mut receiver, &mut work)), "Hello");
    assert_eq!(receiver.buffer().cursor(), 0);
    assert!(receiver.buffer().is_clear());
}

#[test]
fn twenty_five_bytes_complete_a_frame_of_the_board() {
    let mut receiver = Receiver::<64>::new(Framing::FixedSize(25));
    let command = b"+RECV=0,8,COMMANDS,-54,40";
    assert_eq!(command.len(), 25);
    for (i, byte) in command.iter().enumerate() {
        assert_eq!(receiver.accept(*byte), i == 24);
    }
    let mut work = [0u8; 64];
    assert_eq!(text(&parse_message(&mut receiver, &mut work)), "+RECV=0,8,COMMANDS,-54,40");
}

#[test]
fn sixty_four_bytes_one_at_a_time_request_one_dispatch() {
    let mut receiver = Receiver::<128>::new(Framing::FixedSize(64));
    let mut requests = 0;
    for i in 0..64u8 {
        if lpuart2_interrupt(&mut receiver, &[i + 1]) {
            requests += 1;
            assert_eq!(i, 63);
        }
    }
    assert_eq!(requests, 1);
    assert!(receiver.is_pending());
    assert_eq!(receiver.buffer().cursor(), 64);
}

#[test]
fn sixty_four_bytes_in_one_burst_request_one_dispatch() {
    let mut receiver = Receiver::<128>::new(Framing::FixedSize(64));
    let burst: Vec<u8> = (1..=64u8).collect();
    assert!(lpuart2_interrupt(&mut receiver, &burst));
    assert!(!lpuart2_interrupt(&mut receiver, &[]));
    let mut work = [0u8; 128];
    let emitted = parse_message(&mut receiver, &mut work);
    assert_eq!(emitted.len(), 64);
    assert_eq!(&work[..64], &burst[..]);
    assert!(receiver.buffer().is_clear());
}

#[test]
fn sixty_four_bytes_fill_a_buffer_of_sixty_four_and_request_one_dispatch() {
    let mut receiver = Receiver::<64>::new(Framing::FixedSize(64));
    let mut requests = 0;
    for i in 0..64u8 {
        if lpuart2_interrupt(&mut receiver, &[i + 1]) {
            requests += 1;
            assert_eq!(i, 63);
        }
    }
    assert_eq!(requests, 1);
    assert!(receiver.is_pending());
    // The cursor went round; the frame is the whole storage.
    assert_eq!(receiver.buffer().cursor(), 0);
    let mut work = [0xAAu8; 64];
    let emitted = parse_message(&mut receiver, &mut work);
    let expected: Vec<u8> = (1..=64u8).collect();
    assert_eq!(&work[..], &expected[..]);
    assert_eq!(emitted.len(), 64);
    assert!(receiver.buffer().is_clear());
}

#[test]
fn fixed_size_of_one_completes_with_every_first_byte() {
    let mut receiver = Receiver::<4>::new(Framing::FixedSize(1));
    let mut work = [0u8; 4];
    for byte in [b'a', b'b', b'c'] {
        assert!(lpuart2_interrupt(&mut receiver, &[byte]));
        assert_eq!(parse_message(&mut receiver, &mut work), vec![byte as char]);
    }
}

#[test]
fn framing_fits_a_capacity() {
    assert!(Framing::Sentinel.fits_capacity(1));
    assert!(Framing::FixedSize(1).fits_capacity(1));
    assert!(Framing::FixedSize(64).fits_capacity(64));
    assert!(Framing::FixedSize(25).fits_capacity(64));
    assert!(!Framing::FixedSize(0).fits_capacity(64));
    assert!(!Framing::FixedSize(65).fits_capacity(64));
}

#[test]
fn no_second_request_while_a_run_is_pending() {
    let mut receiver = Receiver::<4>::new(Framing::FixedSize(2));
    assert!(lpuart2_interrupt(&mut receiver, &[1, 2]));
    assert!(receiver.is_pending());
    // Four more bytes take the cursor round the storage and over the
    // configured size once more.
    assert!(!lpuart2_interrupt(&mut receiver, &[3, 4, 5, 6]));
    assert_eq!(receiver.buffer().cursor(), 2);
    assert_eq!(receiver.buffer().bytes(), &[5, 6, 3, 4]);
    assert!(receiver.is_pending());
    let mut work = [0u8; 4];
    assert_eq!(parse_message(&mut receiver, &mut work), vec!['\u{5}', '\u{6}', '\u{3}', '\u{4}']);
    assert!(!receiver.is_pending());
    assert!(lpuart2_interrupt(&mut receiver, &[7, 8]));
}

#[test]
fn one_burst_that_passes_the_size_twice_requests_once() {
    let mut receiver = Receiver::<4>::new(Framing::FixedSize(1));
    assert!(lpuart2_interrupt(&mut receiver, &[1, 2, 3, 4, 5]));
    assert_eq!(receiver.buffer().cursor(), 1);
    assert_eq!(receiver.buffer().bytes(), &[5, 2, 3, 4]);
}

#[test]
fn cursor_wraps_at_capacity() {
    let mut buffer = FrameBuffer::<4>::new();
    for (i, byte) in [10u8, 11, 12, 13, 14].iter().enumerate() {
        buffer.push(*byte);
        assert_eq!(buffer.cursor(), (i + 1) % 4);
    }
    assert_eq!(buffer.bytes(), &[14, 11, 12, 13]);
    assert_eq!(buffer.cursor(), 1);
    assert!(!buffer.is_clear());
}

#[test]
fn capacity_of_one_keeps_the_cursor_at_the_start() {
    let mut buffer = FrameBuffer::<1>::new();
    buffer.push(9);
    assert_eq!(buffer.cursor(), 0);
    assert_eq!(buffer.bytes(), &[9]);
}

#[test]
fn sentinel_frame_ends_when_the_source_runs_empty() {
    let mut receiver = Receiver::<16>::new(Framing::Sentinel);
    assert!(!lpuart2_interrupt(&mut receiver, &[]));
    assert!(!receiver.is_pending());
    assert!(lpuart2_interrupt(&mut receiver, b"ping"));
    assert!(!lpuart2_interrupt(&mut receiver, b"!"));
    assert!(receiver.is_pending());
    let mut work = [0u8; 16];
    assert_eq!(text(&parse_message(&mut receiver, &mut work)), "ping!");
    assert!(receiver.buffer().is_clear());
    assert!(!receiver.is_pending());
}

#[test]
fn sentinel_steps_one_by_one() {
    let mut receiver = Receiver::<16>::new(Framing::Sentinel);
    assert!(!receiver.source_empty());
    assert!(!receiver.accept(b'o'));
    assert!(receiver.has_unread());
    assert!(!receiver.accept(b'k'));
    assert!(receiver.source_empty());
    assert!(!receiver.source_empty());
    let mut work = [0xAAu8; 16];
    assert_eq!(receiver.take_frame(&mut work), 2);
    assert_eq!(&work[..3], b"ok\0");
    assert_eq!(&work[3..], &[0u8; 13]);
    assert!(!receiver.has_unread());
    assert!(!receiver.source_empty());
}

#[test]
fn sentinel_frame_keeps_a_zero_byte_in_the_work_buffer() {
    let mut receiver = Receiver::<8>::new(Framing::Sentinel);
    assert!(lpuart2_interrupt(&mut receiver, &[b'a', 0, b'b']));
    let mut work = [0u8; 8];
    let emitted = parse_message(&mut receiver, &mut work);
    assert_eq!(&work[..4], &[b'a', 0, b'b', 0]);
    assert_eq!(emitted, vec!['a']);
    assert!(receiver.buffer().is_clear());
}

#[test]
fn capacity_reached_under_sentinel_framing_wraps_the_cursor() {
    let mut receiver = Receiver::<8>::new(Framing::Sentinel);
    let burst = [1u8, 2, 3, 4, 5, 6, 7, 8];
    // Bytes came, so a run of the parsing task is requested when the source
    // runs empty. But the cursor is back at the start: the task finds an
    // empty frame, and the eight bytes are lost to it.
    assert!(lpuart2_interrupt(&mut receiver, &burst));
    assert_eq!(receiver.buffer().cursor(), 0);
    assert_eq!(receiver.buffer().bytes(), &burst);
    assert!(receiver.is_pending());
    assert!(receiver.has_unread());
    let mut work = [0xAAu8; 8];
    assert_eq!(parse_message(&mut receiver, &mut work), Vec::<char>::new());
    assert_eq!(work, [0u8; 8]);
    assert_eq!(receiver.buffer().cursor(), 0);
    assert!(receiver.buffer().is_clear());
    assert!(!receiver.is_pending());
}

#[test]
fn one_burst_and_its_halves_request_the_same_under_sentinel_framing() {
    let burst = [1u8, 2, 3, 4, 5, 6, 7, 8];
    let mut whole = Receiver::<8>::new(Framing::Sentinel);
    let mut halves = Receiver::<8>::new(Framing::Sentinel);
    let whole_requests = lpuart2_interrupt(&mut whole, &burst) as u32;
    let halves_requests = lpuart2_interrupt(&mut halves, &burst[..5]) as u32
        + lpuart2_interrupt(&mut halves, &burst[5..]) as u32;
    assert_eq!(whole_requests, 1);
    assert_eq!(halves_requests, 1);
    assert_eq!(whole.buffer().bytes(), halves.buffer().bytes());
    assert_eq!(whole.buffer().cursor(), halves.buffer().cursor());
    assert_eq!(whole.is_pending(), halves.is_pending());
    assert_eq!(whole.has_unread(), halves.has_unread());
}

#[test]
fn one_byte_less_than_capacity_is_kept_under_sentinel_framing() {
    let mut receiver = Receiver::<8>::new(Framing::Sentinel);
    assert!(lpuart2_interrupt(&mut receiver, &[1, 2, 3, 4, 5, 6, 7]));
    assert_eq!(receiver.buffer().cursor(), 7);
    let mut work = [0u8; 8];
    assert_eq!(receiver.take_frame(&mut work), 7);
    assert_eq!(work, [1, 2, 3, 4, 5, 6, 7, 0]);
}

#[test]
fn parsing_twice_changes_nothing_more() {
    let mut receiver = Receiver::<16>::new(Framing::FixedSize(3));
    assert!(lpuart2_interrupt(&mut receiver, b"abc"));
    let mut work = [0u8; 16];
    assert_eq!(text(&parse_message(&mut receiver, &mut work)), "abc");
    assert!(receiver.buffer().is_clear());
    assert_eq!(receiver.buffer().cursor(), 0);
    let mut second = [0u8; 16];
    assert_eq!(parse_message(&mut receiver, &mut second), Vec::<char>::new());
    assert_eq!(second, [0u8; 16]);
    assert!(receiver.buffer().is_clear());
    assert!(!receiver.is_pending());
}

#[test]
fn bytes_behind_a_zero_byte_are_cleared_with_the_frame() {
    let mut receiver = holding::<64>(Framing::FixedSize(25), &[b'H', b'i', 0, b'X']);
    assert_eq!(receiver.buffer().cursor(), 4);
    let mut work = [0u8; 64];
    assert_eq!(parse_message(&mut receiver, &mut work), vec!['H', 'i']);
    assert_eq!(receiver.buffer().cursor(), 0);
    assert_eq!(receiver.buffer().bytes(), &[0u8; 64]);
    assert!(receiver.buffer().is_clear());
    // Nothing stale comes back with the next frame.
    assert!(!lpuart2_interrupt(&mut receiver, b"pq"));
    assert_eq!(text(&parse_message(&mut receiver, &mut work)), "pq");
    assert!(receiver.buffer().is_clear());
}

#[test]
fn buffer_is_all_zero_after_a_run_whatever_it_held() {
    let contents: [&[u8]; 6] = [
        &[],
        &[0, 1, 2, 3],
        &[1, 0, 0, 9, 0, 7, 7, 7],
        &[1, 2, 3, 4, 5, 6, 7, 8],
        &[1, 2, 3, 4, 5, 6, 7, 8, 9, 10, 11],
        &[0, 0, 0, 0, 0, 0, 0, 5],
    ];
    for framing in [Framing::FixedSize(8), Framing::FixedSize(3), Framing::Sentinel] {
        for bytes in contents {
            let mut receiver = holding::<8>(framing, bytes);
            let mut work = [0x55u8; 8];
            parse_message(&mut receiver, &mut work);
            assert_eq!(receiver.buffer().bytes(), &[0u8; 8]);
            assert_eq!(receiver.buffer().cursor(), 0);
            assert!(receiver.buffer().is_clear());
            assert!(!receiver.is_pending());
            assert!(!receiver.has_unread());
        }
    }
}

#[test]
fn only_the_frame_is_logged_after_a_longer_one() {
    let mut receiver = Receiver::<64>::new(Framing::FixedSize(5));
    let mut work = [0u8; 64];
    assert!(lpuart2_interrupt(&mut receiver, b"Hello"));
    assert_eq!(text(&parse_message(&mut receiver, &mut work)), "Hello");
    assert_eq!(&work[..6], b"Hello\0");
    assert!(!lpuart2_interrupt(&mut receiver, b"Hi"));
    assert_eq!(parse_message(&mut receiver, &mut work), vec!['H', 'i']);
    let mut expected = [0u8; 64];
    expected[0] = b'H';
    expected[1] = b'i';
    assert_eq!(work, expected);
    assert_eq!(emitted_text(&work), vec!['H', 'i']);
}

#[test]
fn work_buffer_holds_the_frame_alone_whatever_it_held() {
    let mut receiver = Receiver::<8>::new(Framing::Sentinel);
    assert!(lpuart2_interrupt(&mut receiver, b"abc"));
    let mut work = [0xFFu8; 8];
    assert_eq!(receiver.take_frame(&mut work), 3);
    assert_eq!(work, [b'a', b'b', b'c', 0, 0, 0, 0, 0]);
}

#[test]
fn buffer_does_not_tell_bursts_from_single_bytes() {
    let data: Vec<u8> = (0..100u32).map(|i| (i * 37 % 251) as u8).collect();
    for split in [0usize, 1, 7, 31, 32, 33, 64, 99, 100] {
        let mut whole = Receiver::<32>::new(Framing::FixedSize(9));
        let mut parts = Receiver::<32>::new(Framing::FixedSize(9));
        let mut single = Receiver::<32>::new(Framing::FixedSize(9));
        let whole_requested = lpuart2_interrupt(&mut whole, &data);
        let first = lpuart2_interrupt(&mut parts, &data[..split]);
        let second = lpuart2_interrupt(&mut parts, &data[split..]);
        let mut requests = 0;
        for byte in &data {
            if lpuart2_interrupt(&mut single, &[*byte]) {
                requests += 1;
            }
        }
        assert_eq!(whole.buffer().bytes(), parts.buffer().bytes());
        assert_eq!(whole.buffer().bytes(), single.buffer().bytes());
        assert_eq!(whole.buffer().cursor(), 100 % 32);
        assert_eq!(parts.buffer().cursor(), 100 % 32);
        assert_eq!(single.buffer().cursor(), 100 % 32);
        assert!(whole_requested);
        assert_eq!(first || second, whole_requested);
        assert_eq!(requests, 1);
        assert_eq!(whole.is_pending(), parts.is_pending());
    }
}

#[test]
fn last_capacity_bytes_survive_an_overrun() {
    let data: Vec<u8> = (1..=20u8).collect();
    let mut buffer = FrameBuffer::<8>::new();
    for byte in &data {
        buffer.push(*byte);
    }
    assert_eq!(buffer.cursor(), 20 % 8);
    for index in 12..20usize {
        assert_eq!(buffer.bytes()[index % 8], data[index]);
    }
}

#[test]
fn frame_is_the_stream_up_to_zero_or_size() {
    let streams: [&[u8]; 4] = [b"abcdefgh", b"ab\0defgh", b"\0bcdefgh", b"abcd\0fgh"];
    let expected = ["abcde", "ab", "", "abcd"];
    for (stream, want) in streams.iter().zip(expected.iter()) {
        let mut receiver = Receiver::<16>::new(Framing::FixedSize(5));
        let mut work = [0u8; 16];
        let mut got = None;
        for byte in stream.iter() {
            if lpuart2_interrupt(&mut receiver, &[*byte]) {
                got = Some(text(&parse_message(&mut receiver, &mut work)));
                break;
            }
        }
        assert_eq!(got.as_deref(), Some(*want));
    }
}

#[test]
fn take_until_zero_moves_and_zeroes() {
    let mut buffer = FrameBuffer::<6>::new();
    for byte in [5u8, 6, 0, 7] {
        buffer.push(byte);
    }
    let mut work = [9u8; 6];
    assert_eq!(buffer.take_until_zero(&mut work), 2);
    assert_eq!(work, [5, 6, 0, 0, 0, 0]);
    assert_eq!(buffer.bytes(), &[0u8; 6]);
    assert_eq!(buffer.cursor(), 0);
    assert!(buffer.is_clear());
}

#[test]
fn take_until_zero_takes_a_full_buffer() {
    let mut buffer = FrameBuffer::<3>::new();
    for byte in [1u8, 2, 3] {
        buffer.push(byte);
    }
    let mut work = [0u8; 3];
    assert_eq!(buffer.take_until_zero(&mut work), 3);
    assert_eq!(work, [1, 2, 3]);
    assert!(buffer.is_clear());
}

#[test]
fn take_to_cursor_moves_and_zeroes() {
    let mut buffer = FrameBuffer::<6>::new();
    for byte in [5u8, 0, 6] {
        buffer.push(byte);
    }
    let mut work = [9u8; 6];
    assert_eq!(buffer.take_to_cursor(&mut work), 3);
    assert_eq!(work, [5, 0, 6, 0, 0, 0]);
    assert!(buffer.is_clear());
}

#[test]
fn take_to_cursor_clears_what_lies_behind_the_cursor() {
    let mut buffer = FrameBuffer::<4>::new();
    for byte in [1u8, 2, 3, 4, 5] {
        buffer.push(byte);
    }
    assert_eq!(buffer.bytes(), &[5, 2, 3, 4]);
    let mut work = [9u8; 4];
    assert_eq!(buffer.take_to_cursor(&mut work), 1);
    assert_eq!(work, [5, 0, 0, 0]);
    assert_eq!(buffer.bytes(), &[0u8; 4]);
    assert!(buffer.is_clear());
}

#[test]
fn emitted_text_reads_up_to_the_first_zero() {
    assert_eq!(emitted_text(&[b'o', b'k', 0, b'x']), vec!['o', 'k']);
    assert_eq!(emitted_text(&[0u8, b'x']), Vec::<char>::new());
    assert_eq!(emitted_text(&[b'a', b'b']), vec!['a', 'b']);
    assert_eq!(emitted_text(&[0xE9u8, 0xFF, 0x7F]), vec!['\u{e9}', '\u{ff}', '\u{7f}']);
    assert_eq!(emitted_text::<0>(&[]), Vec::<char>::new());
}

/// A small generator of numbers that look random, the same on every run.
fn next(seed: &mut u32) -> u32 {
    *seed = seed.wrapping_mul(1_664_525).wrapping_add(1_013_904_223);
    *seed >> 8
}

fn interleave(framing: Framing, seed: u32) {
    let mut seed = seed;
    let mut receiver = Receiver::<32>::new(framing);
    let mut work = [0u8; 32];
    let mut delivered: Vec<u8> = Vec::new();
    let mut parsed: Vec<u8> = Vec::new();
    for _ in 0..2_000 {
        let room = 31 - receiver.buffer().cursor();
        if next(&mut seed) % 3 == 0 || room == 0 {
            let count = receiver.take_frame(&mut work);
            parsed.extend_from_slice(&work[..count]);
        } else {
            let length = (next(&mut seed) as usize) % (room + 1);
            let burst: Vec<u8> = (0..length).map(|_| (next(&mut seed) % 255) as u8 + 1).collect();
            lpuart2_interrupt(&mut receiver, &burst);
            delivered.extend_from_slice(&burst);
        }
        let waiting = &receiver.buffer().bytes()[..receiver.buffer().cursor()];
        let mut seen = parsed.clone();
        seen.extend_from_slice(waiting);
        assert_eq!(seen, delivered);
    }
    let count = receiver.take_frame(&mut work);
    parsed.extend_from_slice(&work[..count]);
    assert_eq!(parsed, delivered);
    assert!(receiver.buffer().is_clear());
}

#[test]
fn interleaved_parsing_loses_and_repeats_nothing_under_fixed_size_framing() {
    for seed in 1..20 {
        interleave(Framing::FixedSize(25), seed);
    }
}

#[test]
fn interleaved_parsing_loses_and_repeats_nothing_under_sentinel_framing() {
    for seed in 1..20 {
        interleave(Framing::Sentinel, seed);
    }
}
