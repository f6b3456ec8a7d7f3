use mdd::picture::{convert_to_png_with_dimensions, png_image, ImageFailure};

fn bmp_bytes(width: u32, height: u32) -> Vec<u8> {
    let img = image::RgbImage::new(width, height);
    let mut out = std::io::Cursor::new(Vec::new());
    img.write_to(&mut out, image::ImageFormat::Bmp).unwrap();
    out.into_inner()
}

#[test]
fn converts_bmp_to_png_and_reports_its_size() {
    let image = convert_to_png_with_dimensions(&bmp_bytes(3, 2)).unwrap();
    assert_eq!((image.width, image.height), (3, 2));
    assert_eq!(&image.png[1..4], b"PNG");
    let decoded = image::load_from_memory(&image.png).unwrap();
    assert_eq!(decoded.width(), 3);
    assert_eq!(decoded.height(), 2);
}

#[test]
fn refuses_bytes_that_are_no_image() {
    match convert_to_png_with_dimensions(b"not an image at all") {
        Err(ImageFailure::Unreadable(message)) => assert!(!message.is_empty()),
        other => panic!("unexpected result: {:?}", other.map(|i| (i.width, i.height))),
    }
}

#[test]
fn failure_message_is_the_reader_message() {
    let failure = ImageFailure::Unreadable("bad header".to_string());
    assert_eq!(failure.message(), "bad header");
    let failure = ImageFailure::Unwritable("no encoder".to_string());
    assert_eq!(failure.message(), "no encoder");
}

#[test]
fn png_image_hands_on_the_encoded_bytes_and_size() {
    let image = png_image(7, 5, Ok(vec![1, 2, 3])).unwrap();
    assert_eq!(image.png, vec![1, 2, 3]);
    assert_eq!((image.width, image.height), (7, 5));
    match png_image(7, 5, Err("no encoder".to_string())) {
        Err(ImageFailure::Unwritable(m)) => assert_eq!(m, "no encoder"),
        other => panic!("unexpected result: {other:?}"),
    }
}
