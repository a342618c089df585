use mars_api::store::{finish_transcode, output_file_name, plan_store, CodecFailure, StoreFile};

fn tiny_png() -> Vec<u8> {
    let img = image::RgbaImage::from_pixel(2, 2, image::Rgba([10, 20, 30, 255]));
    let mut out = std::io::Cursor::new(Vec::new());
    img.write_to(&mut out, image::ImageFormat::Png).unwrap();
    out.into_inner()
}

#[test]
fn passthrough_writes_payload_as_png() {
    let r = plan_store(String::from("castle"), false, vec![1, 2, 3]);
    assert_eq!(r, Ok(StoreFile { file_name: String::from("castle.png"), contents: vec![1, 2, 3] }));
}

#[test]
fn passthrough_does_not_check_content() {
    let r = plan_store(String::from("x"), false, vec![]);
    assert_eq!(r, Ok(StoreFile { file_name: String::from("x.png"), contents: vec![] }));
}

#[test]
fn transcode_rejects_non_png() {
    assert_eq!(plan_store(String::from("bad"), true, vec![1, 2, 3]), Err(CodecFailure::Decode));
}

#[test]
fn transcode_writes_avif() {
    let png = tiny_png();
    let r = plan_store(String::from("tiny"), true, png.clone()).expect("transcoded");
    assert_eq!(r.file_name, "tiny.avif");
    assert!(!r.contents.is_empty());
    assert_ne!(r.contents, png);
}

#[test]
fn file_names_by_mode() {
    assert_eq!(output_file_name(String::from("m"), true), "m.avif");
    assert_eq!(output_file_name(String::from("m"), false), "m.png");
}

#[test]
fn encoder_failure_is_codec_failure() {
    assert_eq!(finish_transcode(String::from("a"), None), Err(CodecFailure::Encode));
    assert_eq!(
        finish_transcode(String::from("a"), Some(vec![9])),
        Ok(StoreFile { file_name: String::from("a.avif"), contents: vec![9] })
    );
}
