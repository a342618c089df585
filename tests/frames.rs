use bytes::{Bytes, BytesMut};
use mars_api::frame::{BoundedFrameDecoder, BoundedFrameReadError, LengthPrefixedDataDecoder};
use mars_api::submission::{create_image_decoder, handle_frame, FrameAction};

fn frame(body: &[u8]) -> Vec<u8> {
    let mut v = (body.len() as u32).to_be_bytes().to_vec();
    v.extend_from_slice(body);
    v
}

#[test]
fn short_buffer_needs_more_data() {
    let mut d = LengthPrefixedDataDecoder::new();
    let mut buf = BytesMut::from(&[0u8, 0, 0][..]);
    assert_eq!(d.decode(&mut buf), None);
    assert_eq!(&buf[..], &[0u8, 0, 0][..]);
}

#[test]
fn empty_buffer_needs_more_data() {
    let mut d = LengthPrefixedDataDecoder::new();
    let mut buf = BytesMut::new();
    assert_eq!(d.decode(&mut buf), None);
    assert_eq!(buf.len(), 0);
}

#[test]
fn incomplete_frame_consumes_nothing_then_completes() {
    let mut d = LengthPrefixedDataDecoder::new();
    let mut buf = BytesMut::from(&[0u8, 0, 0, 5, b'h', b'e'][..]);
    assert_eq!(d.decode(&mut buf), None);
    assert_eq!(&buf[..], &[0u8, 0, 0, 5, b'h', b'e'][..]);
    buf.extend_from_slice(b"llo!");
    assert_eq!(d.decode(&mut buf), Some(Bytes::from_static(b"hello")));
    assert_eq!(&buf[..], b"!");
}

#[test]
fn frames_come_back_in_order() {
    let bodies: Vec<&[u8]> = vec![b"abc", b"", b"\x01\x02", b"last frame"];
    let mut stream = Vec::new();
    for b in &bodies {
        stream.extend(frame(b));
    }
    let mut d = LengthPrefixedDataDecoder::new();
    let mut buf = BytesMut::from(&stream[..]);
    for b in &bodies {
        let got = d.decode(&mut buf).expect("a complete frame");
        assert_eq!(&got[..], *b);
        assert_eq!(got.len(), b.len());
    }
    assert_eq!(d.decode(&mut buf), None);
    assert!(buf.is_empty());
}

#[test]
fn zero_length_frame_is_complete() {
    let mut d = LengthPrefixedDataDecoder::new();
    let mut buf = BytesMut::from(&[0u8, 0, 0, 0, 9][..]);
    assert_eq!(d.decode(&mut buf), Some(Bytes::new()));
    assert_eq!(&buf[..], &[9u8][..]);
}

#[test]
fn large_declared_length_waits() {
    let mut d = LengthPrefixedDataDecoder::new();
    let mut buf = BytesMut::from(&[0xffu8, 0xff, 0xff, 0xff, 1, 2, 3][..]);
    assert_eq!(d.decode(&mut buf), None);
    assert_eq!(buf.len(), 7);
}

#[test]
fn guard_allows_exactly_max_frames() {
    let mut g = BoundedFrameDecoder::new(3, LengthPrefixedDataDecoder::new());
    let mut stream = Vec::new();
    for _ in 0..4 {
        stream.extend(frame(b"xy"));
    }
    let mut buf = BytesMut::from(&stream[..]);
    for _ in 0..3 {
        match g.decode(&mut buf) {
            Ok(Some(f)) => assert_eq!(&f[..], b"xy"),
            other => panic!("unexpected {:?}", other),
        }
    }
    let before = buf.clone();
    assert!(matches!(g.decode(&mut buf), Err(BoundedFrameReadError::MaximumFrames)));
    assert_eq!(buf, before);
    assert_eq!(buf.len(), 6);
}

#[test]
fn guard_passes_need_more_data_without_counting() {
    let mut g = BoundedFrameDecoder::new(1, LengthPrefixedDataDecoder::new());
    let mut buf = BytesMut::from(&[0u8, 0][..]);
    assert!(matches!(g.decode(&mut buf), Ok(None)));
    buf.extend_from_slice(&[0, 1, 7]);
    assert!(matches!(g.decode(&mut buf), Ok(Some(ref f)) if &f[..] == &[7u8][..]));
    assert!(matches!(g.decode(&mut buf), Err(BoundedFrameReadError::MaximumFrames)));
}

#[test]
fn guard_with_zero_maximum_fails_at_once() {
    let mut g = BoundedFrameDecoder::new(0, LengthPrefixedDataDecoder::new());
    let mut buf = BytesMut::from(&frame(b"a")[..]);
    assert!(matches!(g.decode(&mut buf), Err(BoundedFrameReadError::MaximumFrames)));
    assert_eq!(buf.len(), 5);
}

#[test]
fn image_decoder_stops_after_1024_frames() {
    let mut g = create_image_decoder();
    let mut stream = Vec::new();
    for _ in 0..1025 {
        stream.extend(frame(b"z"));
    }
    let mut buf = BytesMut::from(&stream[..]);
    for _ in 0..1024 {
        assert!(matches!(g.decode(&mut buf), Ok(Some(_))));
    }
    assert!(matches!(g.decode(&mut buf), Err(BoundedFrameReadError::MaximumFrames)));
    assert_eq!(buf.len(), 5);
}

#[test]
fn io_error_converts() {
    let e = std::io::Error::new(std::io::ErrorKind::Other, "broken");
    assert!(matches!(BoundedFrameReadError::from(e), BoundedFrameReadError::IO(_)));
}

#[test]
fn chunked_arrival_yields_same_frames() {
    let bodies: Vec<&[u8]> = vec![b"first", b"", b"third body", b"4"];
    let mut stream = Vec::new();
    for b in &bodies {
        stream.extend(frame(b));
    }
    for cut in [1usize, 2, 3, 5, 7] {
        let mut d = LengthPrefixedDataDecoder::new();
        let mut buf = BytesMut::new();
        let mut got: Vec<Vec<u8>> = Vec::new();
        for chunk in stream.chunks(cut) {
            buf.extend_from_slice(chunk);
            while let Some(f) = d.decode(&mut buf) {
                got.push(f.to_vec());
            }
        }
        let want: Vec<Vec<u8>> = bodies.iter().map(|b| b.to_vec()).collect();
        assert_eq!(got, want);
        assert!(buf.is_empty());
    }
}

#[test]
fn empty_frame_stops_the_body() {
    let mut stream = Vec::new();
    stream.extend(frame(&[0, 0, 0, 1, b'a', 1]));
    stream.extend(frame(&[0, 0, 0, 1, b'b', 2]));
    stream.extend(frame(b""));
    stream.extend(frame(&[0, 0, 0, 1, b'c', 3]));
    let mut g = create_image_decoder();
    let mut buf = BytesMut::from(&stream[..]);
    let mut sent = Vec::new();
    while let Ok(Some(f)) = g.decode(&mut buf) {
        match handle_frame(f) {
            FrameAction::EndOfBatch => break,
            FrameAction::Submit(name, payload) => sent.push((name, payload)),
            FrameAction::Malformed(e) => panic!("unexpected {:?}", e),
        }
    }
    assert_eq!(sent, vec![(String::from("a"), vec![1u8]), (String::from("b"), vec![2u8])]);
}
