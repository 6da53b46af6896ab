use plugin_statistics::frame::{
    drain_protocol_frame, read_protocol_frame, trim_frame_cr, DrainStep, FramePhase, FrameRead,
    FrameReader,
};
use std::io::BufRead;

fn read_frame<R: BufRead>(reader: &mut R, max_frame_bytes: usize, out: &mut Vec<u8>) -> FrameRead {
    let mut frames = FrameReader {
        phase: FramePhase::Start,
    };
    loop {
        let available = reader.fill_buf().unwrap();
        let step = read_protocol_frame(&mut frames, available, max_frame_bytes, out);
        reader.consume(step.consume);
        if let Some(done) = step.done {
            return done;
        }
    }
}

#[test]
fn reads_protocol_frame_with_crlf() {
    let input = std::io::Cursor::new(b"{\"type\":\"health\"}\r\n".to_vec());
    let mut reader = std::io::BufReader::new(input);
    let mut out = Vec::new();

    assert_eq!(read_frame(&mut reader, 64, &mut out), FrameRead::Line);
    assert_eq!(std::str::from_utf8(&out).unwrap(), "{\"type\":\"health\"}");
}

#[test]
fn rejects_and_drains_oversized_protocol_frame() {
    let input = std::io::Cursor::new(b"abcdef\nok\n".to_vec());
    let mut reader = std::io::BufReader::new(input);
    let mut out = Vec::new();

    assert_eq!(read_frame(&mut reader, 4, &mut out), FrameRead::TooLong);
    assert!(out.is_empty());
    assert_eq!(read_frame(&mut reader, 4, &mut out), FrameRead::Line);
    assert_eq!(std::str::from_utf8(&out).unwrap(), "ok");
}

#[test]
fn piece_size_does_not_change_frames() {
    let input = b"one\r\n\nsixbytes\nab\r\r\nlast".to_vec();
    for capacity in 1..input.len() + 2 {
        let cursor = std::io::Cursor::new(input.clone());
        let mut reader = std::io::BufReader::with_capacity(capacity, cursor);
        let mut out = Vec::new();
        let mut frames = Vec::new();
        loop {
            match read_frame(&mut reader, 5, &mut out) {
                FrameRead::Eof => break,
                end => frames.push((end, out.clone())),
            }
        }
        assert_eq!(
            frames,
            vec![
                (FrameRead::Line, b"one".to_vec()),
                (FrameRead::Line, Vec::new()),
                (FrameRead::TooLong, Vec::new()),
                (FrameRead::Line, b"ab\r".to_vec()),
                (FrameRead::Line, b"last".to_vec()),
            ]
        );
    }
}

#[test]
fn oversized_last_frame_without_newline_is_skipped() {
    let mut reader = std::io::BufReader::with_capacity(2, std::io::Cursor::new(b"abcdef".to_vec()));
    let mut out = vec![7];
    assert_eq!(read_frame(&mut reader, 5, &mut out), FrameRead::TooLong);
    assert_eq!(read_frame(&mut reader, 5, &mut out), FrameRead::Eof);
    assert!(out.is_empty());
}

#[test]
fn frame_of_exactly_the_limit_is_read() {
    let mut reader = std::io::Cursor::new(b"abcd\nabc\r\n".to_vec());
    let mut out = Vec::new();
    assert_eq!(read_frame(&mut reader, 4, &mut out), FrameRead::Line);
    assert_eq!(out, b"abcd");
    assert_eq!(read_frame(&mut reader, 4, &mut out), FrameRead::Line);
    assert_eq!(out, b"abc");
}

#[test]
fn draining_stops_after_the_newline() {
    assert_eq!(drain_protocol_frame(b"ab\ncd"), DrainStep { consume: 3, done: true });
    assert_eq!(drain_protocol_frame(b"abcd"), DrainStep { consume: 4, done: false });
    assert_eq!(drain_protocol_frame(b""), DrainStep { consume: 0, done: true });
}

#[test]
fn one_carriage_return_is_trimmed() {
    let mut frame = b"a\r\r".to_vec();
    trim_frame_cr(&mut frame);
    assert_eq!(frame, b"a\r");
    let mut empty: Vec<u8> = Vec::new();
    trim_frame_cr(&mut empty);
    assert!(empty.is_empty());
}
