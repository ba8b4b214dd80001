use upload_report::thumbs::get_thumbnail;
use upload_report::thumbs::ThumbnailError;

fn square_png(edge: u32) -> Vec<u8> {
    let img = image::RgbaImage::from_pixel(edge, edge, image::Rgba([200, 40, 40, 255]));
    let mut buf = std::io::Cursor::new(Vec::new());
    img.write_to(&mut buf, image::ImageFormat::Png).unwrap();
    buf.into_inner()
}

#[test]
fn png_upload_yields_square_thumbnail_of_requested_size() {
    let bytes = square_png(8);
    let thumb = get_thumbnail(&bytes, "image/png", 16).unwrap();
    assert!(!thumb.is_empty());
    // PNG signature.
    assert_eq!(&thumb[..8], &[0x89, 0x50, 0x4e, 0x47, 0x0d, 0x0a, 0x1a, 0x0a]);
    let decoded = image::load_from_memory(&thumb).unwrap();
    assert_eq!(decoded.width(), 16);
    assert_eq!(decoded.height(), 16);
}

#[test]
fn one_pixel_image_still_produces_thumbnail() {
    let bytes = square_png(1);
    let thumb = get_thumbnail(&bytes, "image/png", 4).unwrap();
    let decoded = image::load_from_memory(&thumb).unwrap();
    assert_eq!(decoded.width(), 4);
    assert_eq!(decoded.height(), 4);
}

#[test]
fn garbage_bytes_fail_with_creation_error() {
    let bytes = vec![1u8, 2, 3, 4];
    assert_eq!(get_thumbnail(&bytes, "image/png", 16), Err(ThumbnailError::CreationFailed));
}

#[test]
fn unparseable_mime_type_is_reported() {
    let bytes = square_png(2);
    assert_eq!(get_thumbnail(&bytes, "not a mime", 16), Err(ThumbnailError::UnparseableType));
    assert_eq!(ThumbnailError::NoThumbnailProduced.message(), "No thumbnail created");
}

#[test]
fn equal_inputs_yield_equal_thumbnails() {
    let bytes = square_png(8);
    let first = get_thumbnail(&bytes, "image/png", 16).unwrap();
    let second = get_thumbnail(&bytes, "image/png", 16).unwrap();
    assert_eq!(first, second);
}
