use roobot::icon_updater::img::{
    encode_icon, fit_icon, icon_payload, process_icon, IconError, Picture, ICON_SIZE,
};
use roobot::icon_updater::message::{images, Attachment};
use std::io::Cursor;

fn encoded(width: u32, height: u32, format: image::ImageFormat) -> Vec<u8> {
    let img = image::RgbImage::from_fn(width, height, |x, y| {
        image::Rgb([(x % 256) as u8, (y % 256) as u8, 77])
    });
    let mut out = Cursor::new(Vec::new());
    image::DynamicImage::ImageRgb8(img).write_to(&mut out, format).unwrap();
    out.into_inner()
}

fn decoded_payload(payload: &str) -> image::DynamicImage {
    let text = payload.strip_prefix("data:image/png;base64,").unwrap();
    let bytes = base64::Engine::decode(&base64::prelude::BASE64_STANDARD, text).unwrap();
    assert_eq!(image::guess_format(&bytes).unwrap(), image::ImageFormat::Png);
    image::load_from_memory(&bytes).unwrap()
}

#[test]
fn payload_is_a_data_uri_with_standard_base64() {
    assert_eq!(icon_payload(&b"hello".to_vec()), "data:image/png;base64,aGVsbG8=");
    assert_eq!(icon_payload(&Vec::new()), "data:image/png;base64,");
    assert_eq!(icon_payload(&vec![0xfb, 0xff, 0xfe]), "data:image/png;base64,+//+");
    assert_eq!(icon_payload(&vec![0, 0]), "data:image/png;base64,AAA=");
}

#[test]
fn empty_input_is_unsupported() {
    assert_eq!(process_icon(Vec::new()), Err(IconError::UnsupportedFormat));
}

#[test]
fn unknown_format_is_unsupported() {
    assert_eq!(process_icon(b"plain text".to_vec()), Err(IconError::UnsupportedFormat));
    assert_eq!(process_icon(vec![0; 64]), Err(IconError::UnsupportedFormat));
}

#[test]
fn signature_without_a_picture_fails_to_decode() {
    let signature = vec![0x89, 0x50, 0x4E, 0x47, 0x0D, 0x0A, 0x1A, 0x0A];
    assert_eq!(process_icon(signature), Err(IconError::Decode));
}

#[test]
fn text_is_no_image() {
    assert_eq!(process_icon(b"hello world".to_vec()), Err(IconError::UnsupportedFormat));
}

#[test]
fn picture_that_is_far_too_long_for_its_width_cannot_be_fitted() {
    // one pixel wide: scaled to the icon's width it would be longer than can be counted
    let img = image::GrayImage::from_pixel(1, 4_200_000, image::Luma([7]));
    let mut out = Cursor::new(Vec::new());
    image::DynamicImage::ImageLuma8(img).write_to(&mut out, image::ImageFormat::Png).unwrap();
    assert_eq!(process_icon(out.into_inner()), Err(IconError::Encode));
}

#[test]
fn icon_is_written_with_eight_bit_colour_and_alpha() {
    let img = image::ImageBuffer::<image::Luma<u16>, Vec<u16>>::from_pixel(9, 7, image::Luma([40_000]));
    let mut out = Cursor::new(Vec::new());
    image::DynamicImage::ImageLuma16(img).write_to(&mut out, image::ImageFormat::Png).unwrap();
    let payload = process_icon(out.into_inner()).unwrap();
    let icon = decoded_payload(&payload);
    assert_eq!(icon.color(), image::ColorType::Rgba8);
    assert_eq!((icon.width(), icon.height()), (1024, 1024));
    assert!(payload.is_ascii());
    assert!(!payload.contains(char::is_whitespace));
}

#[test]
fn broken_image_fails_to_decode() {
    let mut png = encoded(8, 8, image::ImageFormat::Png);
    png.truncate(20);
    assert_eq!(process_icon(png), Err(IconError::Decode));
}

#[test]
fn png_becomes_a_square_png_icon() {
    let payload = process_icon(encoded(30, 20, image::ImageFormat::Png)).unwrap();
    let icon = decoded_payload(&payload);
    assert_eq!((icon.width(), icon.height()), (ICON_SIZE, ICON_SIZE));
    assert_eq!(ICON_SIZE, 1024);
}

#[test]
fn other_formats_become_png_icons_too() {
    let payload = process_icon(encoded(16, 40, image::ImageFormat::Bmp)).unwrap();
    let icon = decoded_payload(&payload);
    assert_eq!((icon.width(), icon.height()), (1024, 1024));
}

#[test]
fn same_image_gives_the_same_payload() {
    let bytes = encoded(12, 12, image::ImageFormat::Png);
    assert_eq!(process_icon(bytes.clone()), process_icon(bytes));
}

#[test]
fn attachments_with_both_dimensions_are_images() {
    let image = Attachment { width: Some(10), height: Some(20) };
    let file = Attachment { width: None, height: None };
    let odd = Attachment { width: Some(10), height: None };
    let other = Attachment { width: None, height: Some(3) };
    assert!(image.image());
    assert!(!file.image());
    assert!(!odd.image());
    assert!(!other.image());
    assert_eq!(images(&vec![file, image, odd, image, other]), vec![1, 3]);
    assert_eq!(images(&vec![file, odd]), Vec::<usize>::new());
    assert_eq!(images(&Vec::new()), Vec::<usize>::new());
}

#[test]
fn only_a_picture_of_the_icons_size_is_encoded() {
    let samples = 4 * 1024 * 1024;
    let square = Picture { width: 1024, height: 1024, pixels: vec![200; samples] };
    let payload = encode_icon(&square).unwrap();
    let icon = decoded_payload(&payload);
    assert_eq!((icon.width(), icon.height()), (1024, 1024));
    assert_eq!(icon.to_rgba8().into_raw(), vec![200; samples]);

    let one_too_many = Picture { width: 1024, height: 1024, pixels: vec![200; samples + 1] };
    assert_eq!(encode_icon(&one_too_many), Err(IconError::Encode));
    let one_missing = Picture { width: 1024, height: 1024, pixels: vec![200; samples - 1] };
    assert_eq!(encode_icon(&one_missing), Err(IconError::Encode));
    let small = Picture { width: 2, height: 2, pixels: vec![200; 16] };
    assert_eq!(encode_icon(&small), Err(IconError::Encode));
    let flat = Picture { width: 1024, height: 0, pixels: Vec::new() };
    assert_eq!(encode_icon(&flat), Err(IconError::Encode));
}

#[test]
fn picture_with_samples_to_spare_is_fitted() {
    let mut pixels = vec![90; 4 * 3 * 2];
    pixels.extend_from_slice(&[1, 2, 3]);
    let picture = Picture { width: 3, height: 2, pixels };
    assert!(picture.is_sound());
    assert!(!picture.is_exact());
    let payload = fit_icon(&picture).unwrap();
    let icon = decoded_payload(&payload);
    assert_eq!((icon.width(), icon.height()), (1024, 1024));
    assert_eq!(icon.to_rgba8().get_pixel(500, 500).0, [90, 90, 90, 90]);
}

#[test]
fn unscalable_picture_is_refused_before_it_is_resized() {
    let picture = Picture { width: 1, height: 4_200_000, pixels: vec![0; 4 * 4_200_000] };
    assert!(!picture.is_scalable(1024, 1024));
    assert!(picture.is_scalable(1, 1024));
    assert_eq!(fit_icon(&picture), Err(IconError::Encode));
}
