use bytes::Bytes;
use mars_api::submission::{
    handle_frame, parse_image_data, read_length_prefixed_data, read_length_prefixed_string,
    FrameAction, MalformedSubmission,
};

#[test]
fn splits_foo() {
    let body = Bytes::from_static(&[0, 0, 0, 3, b'f', b'o', b'o', 1, 2, 3]);
    assert_eq!(body.len(), 10);
    assert_eq!(parse_image_data(body), Ok((String::from("foo"), vec![1u8, 2, 3])));
}

#[test]
fn empty_payload_is_allowed() {
    let body = Bytes::from_static(&[0, 0, 0, 2, b'a', b'b']);
    assert_eq!(parse_image_data(body), Ok((String::from("ab"), vec![])));
}

#[test]
fn empty_name_is_allowed() {
    let body = Bytes::from_static(&[0, 0, 0, 0, 5]);
    assert_eq!(parse_image_data(body), Ok((String::new(), vec![5u8])));
}

#[test]
fn frame_shorter_than_prefix_is_malformed() {
    let body = Bytes::from_static(&[0, 0, 1]);
    assert_eq!(parse_image_data(body), Err(MalformedSubmission::Truncated));
}

#[test]
fn frame_shorter_than_name_is_malformed() {
    let body = Bytes::from_static(&[0, 0, 0, 9, b'a', b'b']);
    assert_eq!(parse_image_data(body), Err(MalformedSubmission::Truncated));
}

#[test]
fn invalid_utf8_name_is_malformed() {
    let body = Bytes::from_static(&[0, 0, 0, 2, 0xff, 0xfe, 1]);
    assert_eq!(parse_image_data(body), Err(MalformedSubmission::InvalidName));
}

#[test]
fn reads_prefixed_data_and_keeps_rest() {
    let mut b = Bytes::from_static(&[0, 0, 0, 2, 7, 8, 9]);
    assert_eq!(read_length_prefixed_data(&mut b), Some(Bytes::from_static(&[7, 8])));
    assert_eq!(&b[..], &[9u8][..]);
}

#[test]
fn short_prefixed_data_leaves_input() {
    let mut b = Bytes::from_static(&[0, 0, 0, 4, 7]);
    assert_eq!(read_length_prefixed_data(&mut b), None);
    assert_eq!(b.len(), 5);
}

#[test]
fn reads_prefixed_string() {
    let mut b = Bytes::from_static(&[0, 0, 0, 4, b'm', b'a', b'p', b's', 0]);
    assert_eq!(read_length_prefixed_string(&mut b), Ok(String::from("maps")));
    assert_eq!(&b[..], &[0u8][..]);
}

#[test]
fn empty_frame_ends_batch() {
    assert_eq!(handle_frame(Bytes::new()), FrameAction::EndOfBatch);
}

#[test]
fn frame_becomes_submission() {
    let f = Bytes::from_static(&[0, 0, 0, 1, b'x', 4, 5]);
    assert_eq!(handle_frame(f), FrameAction::Submit(String::from("x"), vec![4u8, 5]));
}

#[test]
fn malformed_frame_is_skipped() {
    let f = Bytes::from_static(&[1]);
    assert_eq!(handle_frame(f), FrameAction::Malformed(MalformedSubmission::Truncated));
}

#[test]
fn invalid_prefixed_string_is_reported() {
    let mut b = Bytes::from_static(&[0, 0, 0, 1, 0xc3, 9]);
    assert_eq!(read_length_prefixed_string(&mut b), Err(MalformedSubmission::InvalidName));
}

#[test]
fn truncated_prefixed_string_is_reported() {
    let mut b = Bytes::from_static(&[0, 0, 0, 3, b'a']);
    assert_eq!(read_length_prefixed_string(&mut b), Err(MalformedSubmission::Truncated));
}
