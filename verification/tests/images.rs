use chonkit::image::stored_image_format;
use chonkit::error::ChonkitError;
use chonkit::image::{Image, ImageData, ImageFormat};
use chonkit::document::sha256;
use chonkit::text::decimal_string;

fn png_bytes(width: u32, height: u32) -> Vec<u8> {
    let img = image::RgbImage::new(width, height);
    let mut out = std::io::Cursor::new(Vec::new());
    img.write_to(&mut out, image::ImageFormat::Png).unwrap();
    out.into_inner()
}

#[test]
fn raw_png_bytes_are_read() {
    let bytes = png_bytes(3, 2);
    let data = ImageData::from_raw_bytes(&bytes).unwrap();
    assert_eq!((data.width, data.height), (3, 2));
    assert_eq!(data.format, ImageFormat::Png);
    assert_eq!(data.bytes, bytes);
    assert_eq!(data.size_in_mb(), 0);
}

#[test]
fn garbage_bytes_are_not_an_image() {
    assert!(matches!(ImageData::from_raw_bytes(b"not an image"), Err(ChonkitError::Image(_))));
}

#[test]
fn size_in_mebibytes_rounds_down() {
    let data = ImageData { bytes: vec![0; 3 * 1024 * 1024 - 1], format: ImageFormat::Png, width: 1, height: 1 };
    assert_eq!(data.size_in_mb(), 2);
}

#[test]
fn image_path_and_hash() {
    let bytes = png_bytes(1, 1);
    let mut img = Image::new(Some(2), Some(0), bytes.clone(), ImageFormat::Png, 1, 1);
    assert_eq!(img.path(), format!("{}.png", sha256(&bytes)));
    assert_eq!(img.hash().0, sha256(&bytes));
    img.description = Some("a cat".to_string());
    let mut with_description = bytes.clone();
    with_description.extend_from_slice(b"a cat");
    assert_eq!(img.hash().0, sha256(&with_description));
    assert_eq!(ImageFormat::Jpeg.extension(), "jpg");
}

#[test]
fn data_uri_round_trip() {
    let bytes = png_bytes(4, 5);
    let data = ImageData::from_raw_bytes(&bytes).unwrap();
    let uri = data.to_b64_data_uri();
    assert!(uri.starts_with("data:image/png;base64,iVBORw0KGgo"));
    let back = ImageData::from_b64_data_uri(&uri).unwrap();
    assert_eq!(back.bytes, bytes);
    assert_eq!(back.format, ImageFormat::Png);
    assert_eq!((back.width, back.height), (4, 5));
}

#[test]
fn data_uri_encodes_bytes() {
    let data = ImageData { bytes: b"hi!".to_vec(), format: ImageFormat::Gif, width: 0, height: 0 };
    assert_eq!(data.to_b64_data_uri(), "data:image/gif;base64,aGkh");
}

#[test]
fn data_uri_errors() {
    match ImageData::from_b64_data_uri("image/png;base64,AAAA") {
        Err(ChonkitError::InvalidFile(m)) => assert_eq!(m, "Invalid data URI"),
        _ => panic!("expected an invalid URI"),
    }
    match ImageData::from_b64_data_uri("data:image/png,AAAA") {
        Err(ChonkitError::InvalidFile(m)) => assert_eq!(m, "Invalid data URI"),
        _ => panic!("expected an invalid URI"),
    }
    match ImageData::from_b64_data_uri("data:image/heic;base64,AAAA") {
        Err(ChonkitError::InvalidFile(m)) => assert_eq!(m, "Invalid mime type: image/heic"),
        _ => panic!("expected an invalid mime type"),
    }
    assert!(matches!(ImageData::from_b64_data_uri("data:image/png;base64,@@@"), Err(ChonkitError::Base64(_))));
    assert!(matches!(ImageData::from_b64_data_uri("data:image/png;base64,aGkh"), Err(ChonkitError::InvalidFile(_))));
}

#[test]
fn mime_types_and_formats() {
    assert_eq!(ImageFormat::WebP.mime_type(), "image/webp");
    assert_eq!(ImageFormat::from_mime_type("image/x-tga"), Some(ImageFormat::Tga));
    assert_eq!(ImageFormat::from_mime_type("image/x-portable-pixmap"), Some(ImageFormat::Pnm));
    assert_eq!(ImageFormat::from_mime_type(ImageFormat::Farbfeld.mime_type()), None);
    assert_eq!(ImageFormat::from_mime_type(ImageFormat::Pcx.mime_type()), None);
    for f in [ImageFormat::Png, ImageFormat::Jpeg, ImageFormat::Qoi, ImageFormat::OpenExr] {
        assert_eq!(ImageFormat::from_mime_type(f.mime_type()), Some(f));
    }
}

#[test]
fn decimal_strings() {
    assert_eq!(decimal_string(0), "0");
    assert_eq!(decimal_string(9), "9");
    assert_eq!(decimal_string(10), "10");
    assert_eq!(decimal_string(1234567890), "1234567890");
    assert_eq!(decimal_string(usize::MAX), usize::MAX.to_string());
}

#[test]
fn stored_image_formats() {
    assert_eq!(stored_image_format("fs", "fs", "1", "/images/abc.png").unwrap(), ImageFormat::Png);
    assert_eq!(stored_image_format("fs", "fs", "1", "abc.JPEG").unwrap(), ImageFormat::Jpeg);
    match stored_image_format("s3", "fs", "42", "abc.png") {
        Err(ChonkitError::DoesNotExist(m)) => assert_eq!(m, "Image with ID 42"),
        _ => panic!("expected a missing image"),
    }
    match stored_image_format("fs", "fs", "1", "abc") {
        Err(ChonkitError::InvalidFile(m)) => assert!(m.starts_with("Failed to parse image format: ")),
        _ => panic!("expected an unknown format"),
    }
}

#[test]
fn images_are_equal_by_hash() {
    let bytes = png_bytes(1, 1);
    let a = Image::new(Some(0), Some(0), bytes.clone(), ImageFormat::Png, 1, 1);
    let mut b = Image::new(Some(5), None, bytes.clone(), ImageFormat::Png, 1, 1);
    assert!(a == b);
    b.description = Some("described".to_string());
    assert!(a != b);
    let c = Image::new(None, None, png_bytes(2, 1), ImageFormat::Png, 2, 1);
    assert!(a != c);
}
