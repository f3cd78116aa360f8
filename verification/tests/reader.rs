use virtdriver::frame::{Frame, FrameError};
use virtdriver::reader::{FrameReader, Phase, Progress, TRIGGER};

fn started() -> FrameReader {
    let mut reader = FrameReader::new();
    reader.begin();
    reader
}

/// Feeds `stream` to the reader in the portions it asks for, until it reports.
fn drive(reader: &mut FrameReader, stream: &[u8]) -> (Progress, usize) {
    let mut at = 0;
    loop {
        let end = (at + reader.wanted()).min(stream.len());
        let progress = reader.feed(&stream[at..end]);
        at = end;
        if progress != Progress::Pending {
            return (progress, at);
        }
    }
}

#[test]
fn new_reader_is_idle_and_wants_nothing() {
    let reader = FrameReader::new();
    assert_eq!(reader.phase(), Phase::Idle);
    assert_eq!(reader.wanted(), 0);
}

#[test]
fn begin_returns_trigger_and_awaits_sentinel() {
    let mut reader = FrameReader::new();
    assert_eq!(reader.begin(), 0x00);
    assert_eq!(TRIGGER, 0x00);
    assert_eq!(reader.phase(), Phase::AwaitSentinel);
    assert_eq!(reader.wanted(), 1);
}

#[test]
fn idle_reader_ignores_bytes() {
    let mut reader = FrameReader::new();
    assert_eq!(reader.feed(&[0xFF]), Progress::Pending);
    assert_eq!(reader.feed(&[]), Progress::Pending);
    assert_eq!(reader.phase(), Phase::Idle);
}

#[test]
fn other_bytes_keep_reader_waiting_for_sentinel() {
    let mut reader = started();
    assert_eq!(reader.feed(&[0x00]), Progress::Pending);
    assert_eq!(reader.feed(&[0xFE]), Progress::Pending);
    assert_eq!(reader.phase(), Phase::AwaitSentinel);
    assert_eq!(reader.feed(&[0xFF]), Progress::Pending);
    assert_eq!(reader.phase(), Phase::TickLength);
}

#[test]
fn phases_follow_the_wire_format() {
    let mut reader = started();
    let mut seen = vec![];
    let portions: Vec<Vec<u8>> = vec![
        vec![0xFF],
        vec![100, 0, 0, 0],
        vec![120, 0, 0, 0],
        vec![0, 0, 0x36, 0x42],
        vec![2, 0, 0, 0],
        vec![3, 0],
        vec![0xFF, 0xFF],
        vec![2, 0],
        vec![0, 0],
        vec![1],
    ];
    for portion in &portions {
        seen.push((reader.phase(), reader.wanted()));
        assert_eq!(reader.wanted(), portion.len());
        assert_eq!(reader.feed(portion), Progress::Pending);
    }
    assert_eq!(
        seen,
        vec![
            (Phase::AwaitSentinel, 1),
            (Phase::TickLength, 4),
            (Phase::LongestLength, 4),
            (Phase::Angle, 4),
            (Phase::EncoderCount, 4),
            (Phase::Encoders, 2),
            (Phase::Encoders, 2),
            (Phase::ButtonCount, 2),
            (Phase::Reserved, 2),
            (Phase::Buttons, 1),
        ]
    );
    assert_eq!(reader.phase(), Phase::Buttons);
    let expected = Frame::new(100, 120, 45.5f32.to_bits(), vec![3, -1], vec![true, false]).unwrap();
    assert_eq!(reader.feed(&[0]), Progress::Ready(expected));
    assert_eq!(reader.phase(), Phase::Idle);
    assert_eq!(reader.wanted(), 0);
}

#[test]
fn frame_without_encoders_or_buttons_ends_at_reserved_field() {
    let mut reader = started();
    let stream = Frame::new(8, 9, 10, vec![], vec![]).unwrap().encode();
    assert_eq!(stream.len(), 21);
    let (progress, taken) = drive(&mut reader, &stream);
    assert_eq!(progress, Progress::Ready(Frame::new(8, 9, 10, vec![], vec![]).unwrap()));
    assert_eq!(taken, 21);
}

#[test]
fn short_read_fails_the_cycle_in_every_phase() {
    let stream = Frame::new(1, 2, 3, vec![4, 5], vec![true, false]).unwrap().encode();
    for cut in 0..stream.len() {
        let mut reader = started();
        let (progress, taken) = drive(&mut reader, &stream[..cut]);
        assert_eq!(progress, Progress::Failed(FrameError::ShortRead), "cut at {}", cut);
        assert_eq!(taken, cut);
        assert_eq!(reader.phase(), Phase::Idle);
    }
}

#[test]
fn partial_field_is_a_short_read() {
    let mut reader = started();
    reader.feed(&[0xFF]);
    assert_eq!(reader.feed(&[1, 2, 3]), Progress::Failed(FrameError::ShortRead));
    assert_eq!(reader.phase(), Phase::Idle);
}

#[test]
fn bytes_beyond_those_wanted_are_not_looked_at() {
    let mut reader = started();
    assert_eq!(reader.feed(&[0xFF, 0xFF, 0xFF]), Progress::Pending);
    assert_eq!(reader.phase(), Phase::TickLength);
    assert_eq!(reader.feed(&[1, 0, 0, 0, 9, 9]), Progress::Pending);
    assert_eq!(reader.phase(), Phase::LongestLength);
}

#[test]
fn excess_encoder_count_fails_the_cycle() {
    let mut reader = started();
    let (progress, taken) =
        drive(&mut reader, &[0xFF, 0, 0, 0, 0, 0, 0, 0, 0, 0, 0, 0, 0, 5, 0, 0, 0, 1, 2, 3]);
    assert_eq!(progress, Progress::Failed(FrameError::MalformedFrame));
    assert_eq!(taken, 17);
    assert_eq!(reader.phase(), Phase::Idle);
}

#[test]
fn excess_button_count_fails_the_cycle() {
    let mut reader = started();
    let (progress, taken) =
        drive(&mut reader, &[0xFF, 0, 0, 0, 0, 0, 0, 0, 0, 0, 0, 0, 0, 0, 0, 0, 0, 7, 0, 0, 0, 1]);
    assert_eq!(progress, Progress::Failed(FrameError::MalformedFrame));
    assert_eq!(taken, 19);
}

#[test]
fn begin_drops_an_unfinished_frame() {
    let mut reader = started();
    drive(&mut reader, &[0xFF, 1, 0, 0, 0, 2, 0, 0, 0]);
    reader.begin();
    assert_eq!(reader.phase(), Phase::AwaitSentinel);
    let good = Frame::new(7, 7, 7, vec![1], vec![true]).unwrap();
    let (progress, _) = drive(&mut reader, &good.encode());
    assert_eq!(progress, Progress::Ready(good));
}

#[test]
fn next_cycle_after_failure_resynchronizes_on_sentinel() {
    let mut reader = started();
    let mut stream = vec![0xFF, 0, 0, 0, 0, 0, 0, 0, 0, 0, 0, 0, 0, 9, 0, 0, 0];
    stream.extend(vec![1, 2, 3, 4, 5, 6]);
    let good = Frame::new(11, 12, 13, vec![-7], vec![false, true]).unwrap();
    stream.extend(good.encode());
    let (first, taken) = drive(&mut reader, &stream);
    assert_eq!(first, Progress::Failed(FrameError::MalformedFrame));
    reader.begin();
    let (second, more) = drive(&mut reader, &stream[taken..]);
    assert_eq!(second, Progress::Ready(good));
    assert_eq!(taken + more, stream.len());
}
