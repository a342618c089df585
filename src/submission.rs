//! Splitting a frame into a named submission, and what the ingestion loop
//! does with each frame it decodes.
use vstd::prelude::*;
use bytes::Bytes;
use crate::buffer::{bytes_byte_at, bytes_into_vec, bytes_len, bytes_split_to, bytes_view};
use crate::frame::{frame_decode, BoundedFrameDecoder, LengthPrefixedDataDecoder, SIZE_BYTE_LENGTH};

verus! {

/// The most frames one request body may carry.
pub const MAX_IMAGE_FRAMES: usize = 1024;

/// The text that `b` encodes as UTF-8, or `None` where `b` is not valid UTF-8.
pub uninterp spec fn utf8_decode(b: Seq<u8>) -> Option<Seq<char>>;

/// Relies on `String::from_utf8`: it accepts exactly the valid UTF-8
/// sequences, and the empty sequence is the empty string.
#[verifier::external_body]
fn string_from_utf8(v: Vec<u8>) -> (r: Option<String>)
    ensures
        match utf8_decode(v@) {
            None => r is None,
            Some(text) => r is Some && r->0@ == text,
        },
        v@.len() == 0 ==> r is Some && r->0@.len() == 0,
{
    String::from_utf8(v).ok()
}

/// Why one frame could not be read as a submission.
#[derive(Debug, Clone, Copy, PartialEq, Eq, Structural)]
pub enum MalformedSubmission {
    /// The frame is shorter than its name's length prefix, or than the
    /// name that prefix declares.
    Truncated,
    /// The name is not valid UTF-8.
    InvalidName,
}

/// The submission that a frame body holds: its name, and every byte after
/// the name as the payload.
pub open spec fn submission_of(frame: Seq<u8>) -> Result<(Seq<char>, Seq<u8>), MalformedSubmission> {
    match frame_decode(frame) {
        None => Err(MalformedSubmission::Truncated),
        Some((name, payload)) => match utf8_decode(name) {
            None => Err(MalformedSubmission::InvalidName),
            Some(text) => Ok((text, payload)),
        },
    }
}

/// What the ingestion loop does with one decoded frame.
#[derive(Debug, PartialEq, Eq)]
pub enum FrameAction {
    /// An empty frame: stop reading this body.
    EndOfBatch,
    /// Queue this submission (name, payload).
    Submit(String, Vec<u8>),
    /// Skip this frame and go on with the next.
    Malformed(MalformedSubmission),
}

/// The decoder for one request body of images.
pub fn create_image_decoder() -> (r: BoundedFrameDecoder)
    ensures
        r.wf(),
        r.max() == MAX_IMAGE_FRAMES,
        r.current() == 0,
{
    BoundedFrameDecoder::new(MAX_IMAGE_FRAMES, LengthPrefixedDataDecoder::new())
}

/// Takes a 4-byte big-endian length and that many bytes off the front of
/// `bytes`, and returns those bytes. Where `bytes` is too short it returns
/// `None` and leaves `bytes` as it was.
pub fn read_length_prefixed_data(bytes: &mut Bytes) -> (r: Option<Bytes>)
    ensures
        match frame_decode(bytes_view(*old(bytes))) {
            None => r is None && bytes_view(*final(bytes)) == bytes_view(*old(bytes)),
            Some((data, rest)) => r is Some && bytes_view(r->0) == data && bytes_view(
                *final(bytes),
            ) == rest,
        },
{
    let len = bytes_len(bytes);
    if len < SIZE_BYTE_LENGTH {
        return None;
    }
    let b0 = bytes_byte_at(bytes, 0);
    let b1 = bytes_byte_at(bytes, 1);
    let b2 = bytes_byte_at(bytes, 2);
    let b3 = bytes_byte_at(bytes, 3);
    let size: u32 = (b0 as u32) * 0x100_0000 + (b1 as u32) * 0x1_0000 + (b2 as u32) * 0x100
        + (b3 as u32);
    let size = size as usize;
    if len - SIZE_BYTE_LENGTH < size {
        None
    } else {
        let _prefix = bytes_split_to(bytes, SIZE_BYTE_LENGTH);
        Some(bytes_split_to(bytes, size))
    }
}

/// Takes a length-prefixed UTF-8 string off the front of `bytes`. On an
/// error `bytes` may have lost the string's bytes.
pub fn read_length_prefixed_string(bytes: &mut Bytes) -> (r: Result<String, MalformedSubmission>)
    ensures
        match submission_of(bytes_view(*old(bytes))) {
            Err(e) => r == Err::<String, MalformedSubmission>(e),
            Ok((name, payload)) => r is Ok && r->Ok_0@ == name && bytes_view(*final(bytes))
                == payload,
        },
{
    match read_length_prefixed_data(bytes) {
        None => Err(MalformedSubmission::Truncated),
        Some(data) => match string_from_utf8(bytes_into_vec(data)) {
            None => Err(MalformedSubmission::InvalidName),
            Some(name) => Ok(name),
        },
    }
}

/// Splits a frame body into its name and its payload.
pub fn parse_image_data(bytes: Bytes) -> (r: Result<(String, Vec<u8>), MalformedSubmission>)
    ensures
        match submission_of(bytes_view(bytes)) {
            Err(e) => r == Err::<(String, Vec<u8>), MalformedSubmission>(e),
            Ok((name, payload)) => r is Ok && r->Ok_0.0@ == name && r->Ok_0.1@ == payload,
        },
{
    let mut bytes = bytes;
    let name = read_length_prefixed_string(&mut bytes)?;
    Ok((name, bytes_into_vec(bytes)))
}

/// Decides what to do with a frame: an empty one ends the batch, whatever
/// follows it; any other is queued as a submission or skipped as malformed.
pub fn handle_frame(frame: Bytes) -> (r: FrameAction)
    ensures
        bytes_view(frame).len() == 0 <==> r == FrameAction::EndOfBatch,
        bytes_view(frame).len() != 0 ==> match submission_of(bytes_view(frame)) {
            Err(e) => r == FrameAction::Malformed(e),
            Ok((name, payload)) => r is Submit && r->Submit_0@ == name && r->Submit_1@ == payload,
        },
{
    if bytes_len(&frame) == 0 {
        return FrameAction::EndOfBatch;
    }
    match parse_image_data(frame) {
        Ok((name, payload)) => FrameAction::Submit(name, payload),
        Err(e) => FrameAction::Malformed(e),
    }
}

} // verus!
