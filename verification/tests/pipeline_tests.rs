use base64::Engine as _;
use base64::engine::general_purpose;
use binarize::b64::encode_bytes;
use binarize::errors::ProcessError;
use binarize::format::FormatTag;
use binarize::gray::GrayBuffer;
use binarize::ingest::UploadIngest;
use binarize::package::package;
use binarize::pipeline::{process_buffer, process_bytes};

fn png_bytes(w: u32, h: u32, data: Vec<u8>) -> Vec<u8> {
    let img: image::GrayImage = image::ImageBuffer::from_raw(w, h, data).expect("raw buffer");
    let mut cur = std::io::Cursor::new(Vec::new());
    img.write_to(&mut cur, image::ImageFormat::Png).expect("png encode");
    cur.into_inner()
}

#[test]
fn base64_matches_the_reference_implementation() {
    let cases: Vec<Vec<u8>> = vec![
        vec![],
        vec![1],
        vec![1, 2],
        vec![1, 2, 3],
        vec![255, 254, 253, 252],
        b"hello world".to_vec(),
        (0u8..=255).collect(),
    ];
    for case in cases {
        let ours = String::from_utf8(encode_bytes(&case)).expect("ascii");
        let reference = general_purpose::STANDARD.encode(&case);
        assert_eq!(ours, reference);
        // The reference decoder inverts our encoder: the round trip.
        assert_eq!(general_purpose::STANDARD.decode(&ours).expect("decodes"), case);
    }
}

#[test]
fn package_builds_an_exact_data_url() {
    let pk = package(vec![1, 2, 3], FormatTag::Jpeg);
    assert_eq!(pk.mime, "image/jpeg");
    assert_eq!(pk.data_url, "data:image/jpeg;base64,AQID");
    assert_eq!(pk.encoded, vec![1, 2, 3]);
    let pk2 = package(vec![1, 2, 3], FormatTag::Png);
    assert_eq!(pk2.mime, "image/png");
    assert_eq!(pk2.data_url, "data:image/png;base64,AQID");
}

#[test]
fn png_upload_of_binary_pixels_stays_binary() {
    // A 2x2 image with pixels [0, 0, 255, 255] named photo.png: the
    // threshold computed from histogram {0: 2, 255: 2} tie-breaks to 0,
    // the mime is image/png and the pixels come back unchanged.
    let bytes = png_bytes(2, 2, vec![0, 0, 255, 255]);
    let res = process_bytes(&bytes, FormatTag::Png).expect("processes");
    assert_eq!(res.threshold, 0);
    assert_eq!(res.mime, "image/png");
    let prefix = "data:image/png;base64,";
    assert!(res.data_url.starts_with(prefix));
    // Round trip: the payload decodes to exactly the encoder's output.
    let payload = &res.data_url[prefix.len()..];
    assert_eq!(general_purpose::STANDARD.decode(payload).expect("decodes"), res.encoded);
    // The stored image is a PNG holding the unchanged binary pixels.
    let back = image::load_from_memory(&res.encoded).expect("valid png").to_luma8();
    assert_eq!(back.width(), 2);
    assert_eq!(back.height(), 2);
    assert_eq!(back.into_raw(), vec![0, 0, 255, 255]);
}

#[test]
fn solid_gray_upload_defaults_to_jpeg_and_threshold_zero() {
    // A 10x10 solid 128 image with no filename: the degenerate histogram
    // yields threshold 0 without error and the mime defaults to JPEG.
    let bytes = png_bytes(10, 10, vec![128; 100]);
    let res = process_bytes(&bytes, FormatTag::Jpeg).expect("processes");
    assert_eq!(res.threshold, 0);
    assert_eq!(res.mime, "image/jpeg");
    let prefix = "data:image/jpeg;base64,";
    assert!(res.data_url.starts_with(prefix));
    let payload = &res.data_url[prefix.len()..];
    assert_eq!(general_purpose::STANDARD.decode(payload).expect("decodes"), res.encoded);
}

#[test]
fn process_buffer_binarizes_at_the_solved_threshold() {
    let g = GrayBuffer::new(3, 1, vec![10, 90, 200]).expect("buffer");
    let res = process_buffer(&g, FormatTag::Png).expect("processes");
    let back = image::load_from_memory(&res.encoded).expect("valid png").into_luma8();
    let raw = back.into_raw();
    assert_eq!(raw.len(), 3);
    for px in &raw {
        assert!(*px == 0 || *px == 255);
    }
    // Every pixel strictly above the threshold is white, the rest black.
    let expect: Vec<u8> = [10u8, 90, 200]
        .iter()
        .map(|p| if *p > res.threshold { 255 } else { 0 })
        .collect();
    assert_eq!(raw, expect);
}

#[test]
fn non_image_bytes_are_unreadable() {
    let bytes = b"definitely not an image".to_vec();
    let err = process_bytes(&bytes, FormatTag::Jpeg).expect_err("rejected");
    assert_eq!(err, ProcessError::UnreadableImage);
    assert!(!err.is_client_error());
}

#[test]
fn ingest_assembles_chunks_in_order() {
    let mut up = UploadIngest::new();
    up.begin_field("comment", None);
    up.chunk(&vec![9, 9, 9]);
    up.begin_field("image", Some("scan.PNG"));
    up.chunk(&vec![1, 2]);
    up.chunk(&vec![]);
    up.chunk(&vec![3]);
    let (data, tag) = up.finish().expect("image field present");
    assert_eq!(data, vec![1, 2, 3]);
    assert_eq!(tag, FormatTag::Png);
}

#[test]
fn ingest_without_image_field_fails() {
    let mut up = UploadIngest::new();
    up.begin_field("comment", Some("notes.txt"));
    up.chunk(&vec![1, 2, 3]);
    let err = up.finish().expect_err("no image field");
    assert_eq!(err, ProcessError::NoImageField);
    assert!(err.is_client_error());
}

#[test]
fn ingest_without_filename_defaults_to_jpeg() {
    let mut up = UploadIngest::new();
    up.begin_field("image", None);
    up.chunk(&vec![7]);
    let (data, tag) = up.finish().expect("image field present");
    assert_eq!(data, vec![7]);
    assert_eq!(tag, FormatTag::Jpeg);
}

#[test]
fn end_to_end_from_ingest_to_data_url() {
    let bytes = png_bytes(2, 2, vec![0, 0, 255, 255]);
    let mut up = UploadIngest::new();
    up.begin_field("image", Some("photo.png"));
    for chunk in bytes.chunks(7) {
        up.chunk(&chunk.to_vec());
    }
    let (data, tag) = up.finish().expect("image field present");
    assert_eq!(data, bytes);
    assert_eq!(tag, FormatTag::Png);
    let res = process_bytes(&data, tag).expect("processes");
    assert_eq!(res.threshold, 0);
    assert_eq!(res.mime, "image/png");
}
