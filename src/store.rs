//! What is written for one submission: the payload itself, or the payload
//! transcoded from PNG to AVIF.
use vstd::prelude::*;
use vstd::string::StringExecFns;
use rgb::FromSlice;

verus! {

/// An image decoded to 8-bit RGBA, four bytes per pixel, row by row.
pub struct RgbaImage {
    pub width: u32,
    pub height: u32,
    pub pixels: Vec<u8>,
}

/// The RGBA pixels, width and height of the PNG image that `data` encodes,
/// or `None` where `data` is not a PNG image that can be decoded.
pub uninterp spec fn png_rgba(data: Seq<u8>) -> Option<(Seq<u8>, u32, u32)>;

/// Relies on `image::ImageReader::decode` with the format set to PNG, and on
/// `DynamicImage::into_rgba8` and `ImageBuffer::into_raw`, which give four
/// bytes for each pixel.
#[verifier::external_body]
fn decode_png_rgba(data: Vec<u8>) -> (r: Option<RgbaImage>)
    ensures
        match png_rgba(data@) {
            None => r is None,
            Some((pixels, width, height)) => r is Some && r->0.pixels@ == pixels && r->0.width
                == width && r->0.height == height,
        },
        r is Some ==> r->0.pixels@.len() == 4 * (r->0.width as int) * (r->0.height as int),
{
    let mut reader = image::ImageReader::new(std::io::Cursor::new(data));
    reader.set_format(image::ImageFormat::Png);
    let rgba = reader.decode().ok()?.into_rgba8();
    let (width, height) = rgba.dimensions();
    Some(RgbaImage { width, height, pixels: rgba.into_raw() })
}

/// Relies on `ravif::Encoder::encode_rgba` with its default settings; the
/// encoded file, or `None` where the encoder fails. `imgref::Img::new`
/// panics on a zero width, and the encoder reads `width * height` pixels.
#[verifier::external_body]
fn encode_avif(pixels: &Vec<u8>, width: u32, height: u32) -> (r: Option<Vec<u8>>)
    requires
        width > 0,
        height > 0,
        pixels@.len() == 4 * (width as int) * (height as int),
{
    let img = imgref::Img::new(pixels.as_slice().as_rgba(), width as usize, height as usize);
    let encoded = ravif::Encoder::new().encode_rgba(img).ok()?;
    Some(encoded.avif_file)
}

/// Why a submission could not be transcoded.
#[derive(Debug, Clone, Copy, PartialEq, Eq, Structural)]
pub enum CodecFailure {
    /// The payload is not a PNG image that can be decoded.
    Decode,
    /// The image has no pixels, or the AVIF encoder failed.
    Encode,
}

/// A file to write under the image directory.
#[derive(Debug, PartialEq, Eq)]
pub struct StoreFile {
    pub file_name: String,
    pub contents: Vec<u8>,
}

/// The name of the file that holds `name`'s image: `.avif` when
/// transcoding, `.png` otherwise.
pub open spec fn output_name(name: Seq<char>, transcode: bool) -> Seq<char> {
    if transcode {
        name + ".avif"@
    } else {
        name + ".png"@
    }
}

/// The name of the file that holds `name`'s image.
pub fn output_file_name(name: String, transcode: bool) -> (r: String)
    ensures
        r@ == output_name(name@, transcode),
{
    if transcode {
        name.concat(".avif")
    } else {
        name.concat(".png")
    }
}

/// The file to write once the encoder has run on `name`'s image: `None`
/// from the encoder is a codec failure.
pub fn finish_transcode(name: String, encoded: Option<Vec<u8>>) -> (r: Result<StoreFile, CodecFailure>)
    ensures
        match encoded {
            None => r == Err::<StoreFile, CodecFailure>(CodecFailure::Encode),
            Some(data) => r is Ok && r->Ok_0.file_name@ == output_name(name@, true)
                && r->Ok_0.contents@ == data@,
        },
{
    match encoded {
        None => Err(CodecFailure::Encode),
        Some(contents) => Ok(StoreFile { file_name: output_file_name(name, true), contents }),
    }
}

/// Decides what to write for the submission (`name`, `payload`). Without
/// transcoding, the payload itself goes to `<name>.png`. With transcoding,
/// the payload must be a PNG image, and its AVIF encoding goes to
/// `<name>.avif`; no `.png` file is ever produced in that mode. A decodable
/// image fails only with `Encode`, and always does when it has no pixels.
pub fn plan_store(name: String, transcode: bool, payload: Vec<u8>) -> (r: Result<StoreFile, CodecFailure>)
    ensures
        !transcode ==> r is Ok && r->Ok_0.file_name@ == name@ + ".png"@ && r->Ok_0.contents@
            == payload@,
        transcode ==> match png_rgba(payload@) {
            None => r == Err::<StoreFile, CodecFailure>(CodecFailure::Decode),
            Some((pixels, width, height)) => if width == 0 || height == 0 {
                r == Err::<StoreFile, CodecFailure>(CodecFailure::Encode)
            } else {
                r == Err::<StoreFile, CodecFailure>(CodecFailure::Encode) || (r is Ok
                    && r->Ok_0.file_name@ == name@ + ".avif"@)
            },
        },
{
    if !transcode {
        return Ok(StoreFile { file_name: output_file_name(name, false), contents: payload });
    }
    match decode_png_rgba(payload) {
        None => Err(CodecFailure::Decode),
        Some(image) => {
            if image.width == 0 || image.height == 0 {
                Err(CodecFailure::Encode)
            } else {
                let encoded = encode_avif(&image.pixels, image.width, image.height);
                finish_transcode(name, encoded)
            }
        },
    }
}

} // verus!
