use gif_relay::source::{classify, DecodeError, Event, EventClass};
use gif_relay::stream::{decide, Progress, Stream, DEFAULT_WINDOW_CAP, MAX_IDLE_EVENTS};

/// A GIF of two 1x1 frames with a two-colour global palette: 50 bytes.
///
/// The decoder reports the first 12 bytes with the background colour and
/// the next 8 with the global palette: the preamble is bytes 0..20. The
/// image data of the first frame ends before byte 33 and that of the second
/// before byte 48.
fn two_frame_gif() -> Vec<u8> {
    let mut bytes: Vec<u8> = Vec::new();
    bytes.extend_from_slice(b"GIF89a");
    bytes.extend_from_slice(&[1, 0, 1, 0, 0x80, 0, 0]);
    bytes.extend_from_slice(&[0, 0, 0, 255, 255, 255]);
    for _ in 0..2 {
        bytes.extend_from_slice(&[0x2C, 0, 0, 0, 0, 1, 0, 1, 0, 0]);
        bytes.extend_from_slice(&[2, 2, 0x44, 0x01, 0]);
    }
    bytes.push(0x3B);
    bytes
}

fn pattern(len: usize, seed: u8) -> Vec<u8> {
    (0..len).map(|i| (i as u8).wrapping_mul(7).wrapping_add(seed)).collect()
}

fn drain(stream: &Stream, from: u64) -> (u64, Vec<u8>) {
    let mut offset = from;
    let mut seen: Vec<u8> = Vec::new();
    loop {
        let (next, data) = stream.read_after(offset);
        if next == offset {
            return (offset, seen);
        }
        seen.extend_from_slice(data);
        offset = next;
    }
}

fn retained_span(stream: &Stream) -> u64 {
    let count = stream.frame_count();
    if count == 0 {
        return 0;
    }
    let last = count - 1;
    stream.frame_offset(last) + stream.frame_data(last).len() as u64 - stream.frame_offset(0)
}

fn assert_same_contents(left: &Stream, right: &Stream) {
    assert_eq!(left.preamble(), right.preamble());
    assert_eq!(left.cursor(), right.cursor());
    assert_eq!(left.frame_count(), right.frame_count());
    for index in 0..left.frame_count() {
        assert_eq!(left.frame_offset(index), right.frame_offset(index));
        assert_eq!(left.frame_data(index), right.frame_data(index));
    }
    assert_eq!(left.carry_len(), right.carry_len());
}

/// Feeds a preamble of 10 bytes and frames of 100, 200 and 50 bytes.
fn scenario_stream(cap: u64) -> (Stream, Vec<u8>, Vec<Vec<u8>>) {
    let preamble = pattern(10, 1);
    let frames = vec![pattern(100, 2), pattern(200, 3), pattern(50, 4)];
    let mut stream = Stream::with_cap(cap);
    stream.absorb(Event::BackgroundColor, &preamble);
    for frame in &frames {
        stream.absorb(Event::Data, &frame[..frame.len() - 1]);
        stream.absorb(Event::DataEnd, &frame[frame.len() - 1..]);
    }
    (stream, preamble, frames)
}

#[test]
fn new_stream_is_empty() {
    let stream = Stream::new();
    assert_eq!(stream.window_cap(), DEFAULT_WINDOW_CAP);
    assert_eq!(DEFAULT_WINDOW_CAP, 1024 * 1024);
    assert_eq!(stream.cursor(), 0);
    assert_eq!(stream.frame_count(), 0);
    assert_eq!(stream.preamble().len(), 0);
    assert_eq!(stream.carry_len(), 0);
    let (next, data) = stream.read_after(0);
    assert_eq!(next, 0);
    assert!(data.is_empty());
    let (next, data) = stream.read_after(17);
    assert_eq!(next, 17);
    assert!(data.is_empty());
}

#[test]
fn whole_gif_in_one_write() {
    let gif = two_frame_gif();
    assert_eq!(gif.len(), 50);
    let mut stream = Stream::new();
    assert!(stream.write(&gif).is_ok());
    assert_eq!(stream.preamble(), &gif[..20]);
    assert_eq!(stream.frame_count(), 2);
    assert_eq!(stream.frame_offset(0), 20);
    assert_eq!(stream.frame_data(0), &gif[20..33]);
    assert_eq!(stream.frame_offset(1), 33);
    assert_eq!(stream.frame_data(1), &gif[33..48]);
    assert_eq!(stream.cursor(), 48);
    assert_eq!(stream.carry_len(), 0);
    let (end, seen) = drain(&stream, 0);
    assert_eq!(end, 48);
    assert_eq!(seen, &gif[..48]);
}

#[test]
fn gif_written_byte_by_byte_gives_the_same_frames() {
    let gif = two_frame_gif();
    let mut whole = Stream::new();
    assert!(whole.write(&gif).is_ok());
    let mut pieces = Stream::new();
    for byte in &gif {
        assert!(pieces.write(&[*byte]).is_ok());
    }
    assert_same_contents(&whole, &pieces);
}

#[test]
fn gif_split_anywhere_gives_the_same_frames() {
    let gif = two_frame_gif();
    let mut whole = Stream::new();
    assert!(whole.write(&gif).is_ok());
    for cut in 0..=gif.len() {
        let mut halves = Stream::new();
        assert!(halves.write(&gif[..cut]).is_ok());
        assert!(halves.write(&gif[cut..]).is_ok());
        assert_same_contents(&whole, &halves);
    }
}

#[test]
fn cursor_never_moves_back_and_counts_preamble_and_frames() {
    let gif = two_frame_gif();
    let mut stream = Stream::new();
    let mut last = 0;
    for byte in &gif {
        assert!(stream.write(&[*byte]).is_ok());
        let cursor = stream.cursor();
        assert!(cursor >= last);
        let mut total = stream.preamble().len() as u64;
        for index in 0..stream.frame_count() {
            total += stream.frame_data(index).len() as u64;
        }
        assert_eq!(cursor, total);
        last = cursor;
    }
    assert_eq!(last, 48);
}

#[test]
fn room_shrinks_by_what_is_held() {
    let gif = two_frame_gif();
    let mut stream = Stream::new();
    assert_eq!(stream.room(), u64::MAX);
    assert!(stream.write(&gif).is_ok());
    assert_eq!(stream.room(), u64::MAX - 50);
    assert!(stream.write(b"tail").is_ok());
    assert_eq!(stream.room(), u64::MAX - 54);
}

#[test]
fn empty_write_changes_nothing() {
    let gif = two_frame_gif();
    let mut stream = Stream::new();
    assert!(stream.write(&[]).is_ok());
    assert_eq!(stream.cursor(), 0);
    assert!(stream.write(&gif[..30]).is_ok());
    let cursor = stream.cursor();
    assert!(stream.write(&[]).is_ok());
    assert_eq!(stream.cursor(), cursor);
    assert_eq!(stream.carry_len(), 0);
}

#[test]
fn read_at_cursor_returns_nothing() {
    let gif = two_frame_gif();
    let mut stream = Stream::new();
    assert!(stream.write(&gif[..40]).is_ok());
    let cursor = stream.cursor();
    assert_eq!(cursor, 33);
    let (next, data) = stream.read_after(cursor);
    assert_eq!(next, cursor);
    assert!(data.is_empty());
    let (next, data) = stream.read_after(cursor);
    assert_eq!(next, cursor);
    assert!(data.is_empty());
    let (next, data) = stream.read_after(cursor + 5);
    assert_eq!(next, cursor + 5);
    assert!(data.is_empty());
}

#[test]
fn read_inside_preamble_returns_its_rest() {
    let gif = two_frame_gif();
    let mut stream = Stream::new();
    assert!(stream.write(&gif).is_ok());
    let (next, data) = stream.read_after(5);
    assert_eq!(next, 20);
    assert_eq!(data, &gif[5..20]);
}

#[test]
fn read_at_frame_boundary_returns_the_frame() {
    let gif = two_frame_gif();
    let mut stream = Stream::new();
    assert!(stream.write(&gif).is_ok());
    let (next, data) = stream.read_after(20);
    assert_eq!(next, 33);
    assert_eq!(data, &gif[20..33]);
    let (next, data) = stream.read_after(33);
    assert_eq!(next, 48);
    assert_eq!(data, &gif[33..48]);
}

#[test]
fn read_inside_frame_returns_its_rest() {
    let gif = two_frame_gif();
    let mut stream = Stream::new();
    assert!(stream.write(&gif).is_ok());
    let (next, data) = stream.read_after(25);
    assert_eq!(next, 33);
    assert_eq!(data, &gif[25..33]);
    let (next, data) = stream.read_after(47);
    assert_eq!(next, 48);
    assert_eq!(data, &gif[47..48]);
}

#[test]
fn eviction_scenario_with_cap_250() {
    let (stream, preamble, frames) = scenario_stream(250);
    assert_eq!(stream.cursor(), 360);
    assert_eq!(stream.frame_count(), 2);
    assert_eq!(stream.frame_offset(0), 110);
    assert_eq!(stream.frame_data(0), &frames[1][..]);
    assert_eq!(stream.frame_offset(1), 310);
    assert_eq!(stream.frame_data(1), &frames[2][..]);
    assert_eq!(retained_span(&stream), 250);
    let (next, data) = stream.read_after(0);
    assert_eq!(next, 10);
    assert_eq!(data, &preamble[..]);
    let (next, data) = stream.read_after(10);
    assert_eq!(next, 310);
    assert_eq!(data, &frames[1][..]);
    let (next, data) = stream.read_after(57);
    assert_eq!(next, 310);
    assert_eq!(data, &frames[1][..]);
    let (next, data) = stream.read_after(310);
    assert_eq!(next, 360);
    assert_eq!(data, &frames[2][..]);
}

#[test]
fn one_byte_less_cap_evicts_one_frame_more() {
    let (stream, _, frames) = scenario_stream(249);
    assert_eq!(stream.cursor(), 360);
    assert_eq!(stream.frame_count(), 1);
    assert_eq!(stream.frame_offset(0), 310);
    assert_eq!(stream.frame_data(0), &frames[2][..]);
}

#[test]
fn wide_cap_evicts_nothing() {
    let (stream, preamble, frames) = scenario_stream(350);
    assert_eq!(stream.frame_count(), 3);
    assert_eq!(stream.frame_offset(0), 10);
    let (end, seen) = drain(&stream, 0);
    assert_eq!(end, 360);
    let mut all = preamble.clone();
    for frame in &frames {
        all.extend_from_slice(frame);
    }
    assert_eq!(seen, all);
}

#[test]
fn single_frame_larger_than_cap_is_kept_whole() {
    let mut stream = Stream::with_cap(50);
    let frame = pattern(100, 9);
    stream.absorb(Event::Data, &frame);
    stream.absorb(Event::DataEnd, &[]);
    assert_eq!(stream.frame_count(), 1);
    assert_eq!(stream.frame_data(0), &frame[..]);
    assert_eq!(retained_span(&stream), 100);
    let small = pattern(10, 5);
    stream.absorb(Event::Data, &small);
    stream.absorb(Event::DataEnd, &[]);
    assert_eq!(stream.frame_count(), 1);
    assert_eq!(stream.frame_offset(0), 100);
    assert_eq!(stream.frame_data(0), &small[..]);
    assert_eq!(stream.cursor(), 110);
}

#[test]
fn span_stays_within_cap_after_every_frame() {
    let cap = 300;
    let mut stream = Stream::with_cap(cap);
    for round in 0..40u8 {
        let frame = pattern(20 + (round as usize * 37) % 180, round);
        stream.absorb(Event::Frame, &frame);
        stream.absorb(Event::DataEnd, &[]);
        assert!(stream.frame_count() >= 1);
        assert!(stream.frame_count() == 1 || retained_span(&stream) <= cap);
    }
}

#[test]
fn reader_inside_window_gets_every_byte_once() {
    let (stream, _, frames) = scenario_stream(250);
    let (end, seen) = drain(&stream, 150);
    assert_eq!(end, 360);
    let mut expected = frames[1][40..].to_vec();
    expected.extend_from_slice(&frames[2]);
    assert_eq!(seen, expected);
}

#[test]
fn unclassified_bytes_join_the_next_frame() {
    let mut stream = Stream::new();
    stream.absorb(Event::Nothing, &[1, 2, 3]);
    assert_eq!(stream.cursor(), 0);
    stream.absorb(Event::BlockStart, &[4]);
    stream.absorb(Event::Nothing, &[5, 6]);
    stream.absorb(Event::DataEnd, &[7]);
    assert_eq!(stream.frame_count(), 1);
    assert_eq!(stream.frame_data(0), &[1, 2, 3, 4, 5, 6, 7]);
    assert_eq!(stream.frame_offset(0), 0);
    assert_eq!(stream.cursor(), 7);
}

#[test]
fn unclassified_bytes_join_the_preamble() {
    let mut stream = Stream::new();
    stream.absorb(Event::Nothing, &[1, 2, 3]);
    stream.absorb(Event::GlobalPalette, &[4, 5]);
    assert_eq!(stream.preamble(), &[1, 2, 3, 4, 5]);
    assert_eq!(stream.cursor(), 5);
    stream.absorb(Event::BackgroundColor, &[6]);
    assert_eq!(stream.preamble(), &[1, 2, 3, 4, 5, 6]);
    assert_eq!(stream.cursor(), 6);
}

#[test]
fn late_metadata_is_dropped() {
    let mut stream = Stream::new();
    stream.absorb(Event::BackgroundColor, &[1, 2]);
    stream.absorb(Event::Data, &[3]);
    stream.absorb(Event::Nothing, &[4]);
    stream.absorb(Event::GlobalPalette, &[9, 9, 9]);
    assert_eq!(stream.preamble(), &[1, 2]);
    assert_eq!(stream.cursor(), 2);
    stream.absorb(Event::DataEnd, &[5]);
    assert_eq!(stream.frame_data(0), &[3, 4, 5]);
    assert_eq!(stream.cursor(), 5);
    stream.absorb(Event::Trailer, &[8]);
    assert_eq!(stream.preamble(), &[1, 2]);
    assert_eq!(stream.cursor(), 5);
}

#[test]
fn events_fall_into_their_classes() {
    assert_eq!(classify(Event::Nothing), EventClass::Unclassified);
    assert_eq!(classify(Event::BlockStart), EventClass::FrameInterior);
    assert_eq!(classify(Event::SubBlockFinished), EventClass::FrameInterior);
    assert_eq!(classify(Event::BlockFinished), EventClass::FrameInterior);
    assert_eq!(classify(Event::Frame), EventClass::FrameInterior);
    assert_eq!(classify(Event::Data), EventClass::FrameInterior);
    assert_eq!(classify(Event::DataEnd), EventClass::FrameEnd);
    assert_eq!(classify(Event::GlobalPalette), EventClass::Metadata);
    assert_eq!(classify(Event::BackgroundColor), EventClass::Metadata);
    assert_eq!(classify(Event::Trailer), EventClass::Metadata);
}

#[test]
fn malformed_header_is_refused() {
    let mut stream = Stream::new();
    let outcome = stream.write(b"NOTAGIFATALL");
    match outcome {
        Err(DecodeError::Malformed(text)) => assert_eq!(text, "malformed GIF header"),
        other => panic!("unexpected outcome: {:?}", other),
    }
    assert_eq!(stream.cursor(), 0);
    assert_eq!(stream.frame_count(), 0);
}

#[test]
fn unsupported_version_is_refused() {
    let mut stream = Stream::new();
    let outcome = stream.write(b"GIF88a\x01\x00");
    match outcome {
        Err(error) => {
            assert!(matches!(error, DecodeError::Malformed(_)));
            assert_eq!(error.message(), "unsupported GIF version");
        },
        Ok(()) => panic!("the version should be refused"),
    }
}

#[test]
fn invalid_image_data_is_refused() {
    let mut gif: Vec<u8> = Vec::new();
    gif.extend_from_slice(b"GIF89a");
    gif.extend_from_slice(&[1, 0, 1, 0, 0x80, 0, 0]);
    gif.extend_from_slice(&[0, 0, 0, 255, 255, 255]);
    gif.extend_from_slice(&[0x2C, 0, 0, 0, 0, 1, 0, 1, 0, 0]);
    gif.extend_from_slice(&[2, 1, 0x07, 0]);
    let mut stream = Stream::new();
    let outcome = stream.write(&gif);
    assert!(matches!(outcome, Err(DecodeError::Io(_))));
    assert_eq!(stream.preamble(), &gif[..20]);
    assert_eq!(stream.frame_count(), 0);
}

#[test]
fn written_bytes_are_kept_when_the_decoder_fails() {
    let mut stream = Stream::new();
    assert!(stream.write(b"GIF89").is_ok());
    assert_eq!(stream.carry_len(), 0);
    assert!(stream.write(b"b").is_ok());
    let outcome = stream.write(b"\x01\x00\x01\x00");
    assert!(matches!(outcome, Err(DecodeError::Malformed(_))));
    assert_eq!(stream.carry_len(), 4);
    assert!(stream.write(b"xy").is_ok());
    assert_eq!(stream.carry_len(), 6);
    assert_eq!(stream.cursor(), 0);
}

#[test]
fn bytes_after_the_trailer_wait_in_the_carry() {
    let mut gif = two_frame_gif();
    gif.extend_from_slice(b"xyz");
    let mut stream = Stream::new();
    assert!(stream.write(&gif).is_ok());
    assert_eq!(stream.cursor(), 48);
    assert_eq!(stream.carry_len(), 3);
    assert!(stream.write(b"ab").is_ok());
    assert_eq!(stream.carry_len(), 5);
    assert_eq!(stream.cursor(), 48);
    assert_eq!(stream.frame_count(), 2);
}

#[test]
fn decode_errors_have_messages() {
    assert_eq!(DecodeError::Malformed("bad".to_string()).message(), "bad");
    assert_eq!(DecodeError::Internal("odd".to_string()).message(), "odd");
    assert_eq!(DecodeError::Io("gone".to_string()).message(), "gone");
    assert_eq!(
        DecodeError::Stalled.message(),
        "the decoder reports events without taking input"
    );
    assert_eq!(DecodeError::TooLong.message(), "the stream is too long for a 64-bit offset");
    assert_eq!(MAX_IDLE_EVENTS, 256);
}

#[test]
fn report_with_bytes_is_sorted() {
    assert!(matches!(decide(0, Ok((5, Event::Data))), Progress::Sort { taken: 5, idle: 0 }));
    assert!(matches!(decide(7, Ok((4, Event::Nothing))), Progress::Sort { taken: 4, idle: 0 }));
    assert!(matches!(
        decide(MAX_IDLE_EVENTS, Ok((1, Event::DataEnd))),
        Progress::Sort { taken: 1, idle: 0 }
    ));
}

#[test]
fn report_without_bytes_and_event_ends_the_write() {
    assert!(matches!(decide(0, Ok((0, Event::Nothing))), Progress::Wait));
    assert!(matches!(decide(MAX_IDLE_EVENTS, Ok((0, Event::Nothing))), Progress::Wait));
}

#[test]
fn event_without_bytes_is_sorted_until_the_decoder_stalls() {
    assert!(matches!(decide(0, Ok((0, Event::DataEnd))), Progress::Sort { taken: 0, idle: 1 }));
    assert!(matches!(decide(3, Ok((0, Event::Data))), Progress::Sort { taken: 0, idle: 4 }));
    assert!(matches!(
        decide(MAX_IDLE_EVENTS - 1, Ok((0, Event::BlockStart))),
        Progress::Sort { taken: 0, idle: 256 }
    ));
    assert!(matches!(
        decide(MAX_IDLE_EVENTS, Ok((0, Event::DataEnd))),
        Progress::Fail(DecodeError::Stalled)
    ));
}

#[test]
fn failure_of_the_decoder_fails_the_write() {
    let progress = decide(2, Err(DecodeError::Malformed("bad".to_string())));
    match progress {
        Progress::Fail(DecodeError::Malformed(text)) => assert_eq!(text, "bad"),
        other => panic!("unexpected progress: {:?}", other),
    }
    assert!(matches!(decide(0, Err(DecodeError::Io("x".to_string()))), Progress::Fail(DecodeError::Io(_))));
}
