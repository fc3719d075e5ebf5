use image::GenericImageView;
use image_ingest::error::IngestError;
use image_ingest::thumbnail::{thumbnail_of, Picture};

fn load_picture(bytes: &[u8]) -> Option<Picture> {
    image::load_from_memory(bytes).ok().map(Picture::from_image)
}

fn make_thumbnail(bytes: &[u8]) -> Result<Picture, IngestError> {
    thumbnail_of(load_picture(bytes))
}

fn png_bytes(width: u32, height: u32) -> Vec<u8> {
    let img = image::DynamicImage::ImageLuma8(image::GrayImage::new(width, height));
    let mut out = Vec::new();
    img.write_to(&mut out, image::ImageOutputFormat::Png).unwrap();
    out
}

fn rgb_png_bytes(width: u32, height: u32) -> Vec<u8> {
    let mut buffer = image::RgbImage::new(width, height);
    for (x, y, pixel) in buffer.enumerate_pixels_mut() {
        *pixel = image::Rgb([(x % 256) as u8, (y % 256) as u8, ((x + y) % 256) as u8]);
    }
    let mut out = Vec::new();
    image::DynamicImage::ImageRgb8(buffer)
        .write_to(&mut out, image::ImageOutputFormat::Png)
        .unwrap();
    out
}

fn jpeg_bytes(width: u32, height: u32) -> Vec<u8> {
    let img = image::DynamicImage::ImageRgb8(image::RgbImage::new(width, height));
    let mut out = Vec::new();
    img.write_to(&mut out, image::ImageOutputFormat::Jpeg(80)).unwrap();
    out
}

#[test]
fn loaded_picture_has_the_decoded_dimensions() {
    let picture = load_picture(&png_bytes(300, 200)).unwrap();
    assert_eq!((picture.width(), picture.height()), (300, 200));
    let image = picture.into_image();
    assert_eq!(image.dimensions(), (300, 200));
}

#[test]
fn loading_reads_jpeg_as_well() {
    let picture = load_picture(&jpeg_bytes(64, 48)).unwrap();
    assert_eq!((picture.width(), picture.height()), (64, 48));
}

#[test]
fn large_picture_is_scaled_down() {
    let thumb = make_thumbnail(&rgb_png_bytes(300, 200)).unwrap();
    assert_eq!((thumb.width(), thumb.height()), (100, 66));
    assert_eq!(thumb.into_image().dimensions(), (100, 66));
}

#[test]
fn portrait_picture_is_scaled_down() {
    let thumb = make_thumbnail(&rgb_png_bytes(120, 360)).unwrap();
    assert_eq!((thumb.width(), thumb.height()), (33, 100));
    assert_eq!(thumb.into_image().dimensions(), (33, 100));
}

#[test]
fn small_picture_is_kept_as_it_is() {
    let bytes = rgb_png_bytes(50, 50);
    let thumb = make_thumbnail(&bytes).unwrap();
    assert_eq!((thumb.width(), thumb.height()), (50, 50));
    let kept = thumb.into_image();
    let source = image::load_from_memory(&bytes).unwrap();
    assert_eq!(kept.to_rgb8().into_raw(), source.to_rgb8().into_raw());
}

#[test]
fn into_thumbnail_scales_a_loaded_picture() {
    let picture = load_picture(&png_bytes(1000, 10)).unwrap();
    let thumb = picture.into_thumbnail();
    assert_eq!((thumb.width(), thumb.height()), (100, 1));
    assert_eq!(thumb.into_image().dimensions(), (100, 1));
}

#[test]
fn sixteen_bit_picture_is_scaled_down() {
    let img = image::DynamicImage::ImageLuma16(image::ImageBuffer::from_pixel(
        4000,
        300,
        image::Luma([65535u16]),
    ));
    let mut bytes = Vec::new();
    img.write_to(&mut bytes, image::ImageOutputFormat::Png).unwrap();
    let thumb = make_thumbnail(&bytes).unwrap();
    assert_eq!((thumb.width(), thumb.height()), (100, 7));
    let scaled = thumb.into_image();
    assert_eq!(scaled.dimensions(), (100, 7));
    assert!(scaled.to_luma16().pixels().all(|p| p.0[0] == 65535));
}

#[test]
fn text_is_not_an_image() {
    let outcome = make_thumbnail(b"just some text, pretending to be a picture");
    assert!(matches!(outcome, Err(IngestError::ImageDecode)));
    assert!(load_picture(b"just some text, pretending to be a picture").is_none());
}

#[test]
fn empty_payload_is_not_an_image() {
    assert!(matches!(make_thumbnail(&[]), Err(IngestError::ImageDecode)));
}

#[test]
fn truncated_image_is_not_an_image() {
    let bytes = rgb_png_bytes(300, 200);
    let cut = &bytes[..bytes.len() / 2];
    assert!(matches!(make_thumbnail(cut), Err(IngestError::ImageDecode)));
}

fn gray_map(width: u32, height: u32, shade: u8) -> Vec<u8> {
    let mut bytes = format!("P5\n{} {}\n255\n", width, height).into_bytes();
    bytes.resize(bytes.len() + (width as usize) * (height as usize), shade);
    bytes
}

#[test]
fn long_sides_are_scaled_like_any_other() {
    let thumb = make_thumbnail(&png_bytes(16385, 2)).unwrap();
    assert_eq!((thumb.width(), thumb.height()), (100, 1));
    let thumb = make_thumbnail(&gray_map(20000, 50, 200)).unwrap();
    assert_eq!((thumb.width(), thumb.height()), (100, 1));
    let scaled = thumb.into_image();
    assert_eq!(scaled.dimensions(), (100, 1));
    assert!(scaled.to_luma8().pixels().all(|p| p.0[0] == 200));
}

#[test]
fn picture_too_large_for_one_step_is_scaled_in_steps() {
    let thumb = make_thumbnail(&gray_map(40000, 300, 90)).unwrap();
    assert_eq!((thumb.width(), thumb.height()), (100, 1));
    let scaled = thumb.into_image();
    assert_eq!(scaled.dimensions(), (100, 1));
    assert!(scaled.to_luma8().pixels().all(|p| p.0[0] == 90));
    let thumb = make_thumbnail(&gray_map(30, 70000, 7)).unwrap();
    assert_eq!((thumb.width(), thumb.height()), (1, 100));
    assert!(thumb.into_image().to_luma8().pixels().all(|p| p.0[0] == 7));
}

#[test]
fn very_long_picture_is_scaled_in_steps() {
    let thumb = make_thumbnail(&gray_map(5_000_000, 1, 33)).unwrap();
    assert_eq!((thumb.width(), thumb.height()), (100, 1));
    assert!(thumb.into_image().to_luma8().pixels().all(|p| p.0[0] == 33));
    let thumb = make_thumbnail(&gray_map(2, 4_194_304, 250)).unwrap();
    assert_eq!((thumb.width(), thumb.height()), (1, 100));
    assert!(thumb.into_image().to_luma8().pixels().all(|p| p.0[0] == 250));
}

#[test]
fn picture_holds_the_image_it_was_made_of() {
    let source = image::DynamicImage::ImageRgb8(image::RgbImage::from_pixel(7, 3, image::Rgb([1, 2, 3])));
    let picture = Picture::from_image(source.clone());
    assert_eq!((picture.width(), picture.height()), (7, 3));
    assert_eq!(picture.into_image().to_rgb8().into_raw(), source.to_rgb8().into_raw());
}

#[test]
fn picture_without_pixels_gives_no_thumbnail() {
    let empty = image::DynamicImage::ImageLuma8(image::GrayImage::new(0, 5));
    assert!(matches!(thumbnail_of(Some(Picture::from_image(empty))), Err(IngestError::ImageDecode)));
    let empty = image::DynamicImage::ImageLuma8(image::GrayImage::new(500, 0));
    assert!(matches!(thumbnail_of(Some(Picture::from_image(empty))), Err(IngestError::ImageDecode)));
    let empty = image::DynamicImage::ImageLuma8(image::GrayImage::new(0, 0));
    assert!(matches!(thumbnail_of(Some(Picture::from_image(empty))), Err(IngestError::ImageDecode)));
}

#[test]
fn no_picture_gives_image_decode() {
    assert!(matches!(thumbnail_of(None), Err(IngestError::ImageDecode)));
}
