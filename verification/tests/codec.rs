use image::{DynamicImage, GrayImage, ImageBuffer, Luma, RgbImage, RgbaImage};
use screen_search::{decoded_image_data, encodable_image};
use screen_search::{ColorType, ImageData, ImageError};

fn raster(data: Vec<u8>, width: u32, height: u32, color_type: ColorType, pw: u8) -> ImageData {
    ImageData { data, width, height, color_type, pixel_width: pw }
}

#[test]
fn decoded_rgba_image_gives_its_bytes_and_extents() {
    let bytes: Vec<u8> = (1..=24).collect();
    let img = DynamicImage::ImageRgba8(RgbaImage::from_raw(3, 2, bytes.clone()).unwrap());
    let out = decoded_image_data(&img);
    assert_eq!(out.data, bytes);
    assert_eq!(out.width, 3);
    assert_eq!(out.height, 2);
    assert_eq!(out.pixel_width, 4);
    assert_eq!(out.color_type, ColorType::RGBA);
    assert!(out.is_well_formed());
}

#[test]
fn decoded_rgb_image_has_three_bytes_per_pixel() {
    let bytes: Vec<u8> = (1..=18).collect();
    let img = DynamicImage::ImageRgb8(RgbImage::from_raw(2, 3, bytes.clone()).unwrap());
    let out = decoded_image_data(&img);
    assert_eq!(out.data, bytes);
    assert_eq!(out.width, 2);
    assert_eq!(out.height, 3);
    assert_eq!(out.pixel_width, 3);
    assert_eq!(out.color_type, ColorType::RGBA);
}

#[test]
fn decoded_grey_image_has_one_byte_per_pixel() {
    let img = DynamicImage::ImageLuma8(GrayImage::from_raw(4, 1, vec![9, 8, 7, 6]).unwrap());
    let out = decoded_image_data(&img);
    assert_eq!(out.data, vec![9, 8, 7, 6]);
    assert_eq!(out.width, 4);
    assert_eq!(out.height, 1);
    assert_eq!(out.pixel_width, 1);
    assert!(!out.is_searchable());
}

#[test]
fn decoded_sixteen_bit_image_counts_two_bytes_per_sample() {
    let buffer: ImageBuffer<Luma<u16>, Vec<u16>> =
        ImageBuffer::from_raw(2, 1, vec![0x0101, 0x0202]).unwrap();
    let out = decoded_image_data(&DynamicImage::ImageLuma16(buffer));
    assert_eq!(out.data, vec![1, 1, 2, 2]);
    assert_eq!(out.width, 2);
    assert_eq!(out.height, 1);
    assert_eq!(out.pixel_width, 2);
}

#[test]
fn rgba_raster_is_handed_over_unchanged() {
    let bytes: Vec<u8> = (1..=16).collect();
    let image = raster(bytes.clone(), 2, 2, ColorType::RGBA, 4);
    let img = encodable_image(&image).unwrap();
    assert_eq!(img.width(), 2);
    assert_eq!(img.height(), 2);
    assert_eq!(img.as_bytes(), &bytes[..]);
    assert!(matches!(img, DynamicImage::ImageRgba8(_)));
}

#[test]
fn bgra_raster_is_handed_over_in_rgba_order() {
    let image = raster(vec![1, 2, 3, 4, 5, 6, 7, 8], 1, 2, ColorType::BGRA, 4);
    let img = encodable_image(&image).unwrap();
    assert_eq!(img.width(), 1);
    assert_eq!(img.height(), 2);
    assert_eq!(img.as_bytes(), &[3, 2, 1, 4, 7, 6, 5, 8][..]);
    let rgba = img.to_rgba8();
    assert_eq!(rgba.get_pixel(0, 0).0, [3, 2, 1, 4]);
    assert_eq!(rgba.get_pixel(0, 1).0, [7, 6, 5, 8]);
}

#[test]
fn short_buffer_fails_with_create_buffer() {
    let image = raster(vec![0; 15], 2, 2, ColorType::RGBA, 4);
    assert_eq!(encodable_image(&image).err(), Some(ImageError::CreateBuffer));
    let image = raster(Vec::new(), 1, 1, ColorType::BGRA, 4);
    assert_eq!(encodable_image(&image).err(), Some(ImageError::CreateBuffer));
    let image = raster(vec![0; 64], u32::MAX, u32::MAX, ColorType::RGBA, 4);
    assert_eq!(encodable_image(&image).err(), Some(ImageError::CreateBuffer));
}

#[test]
fn longer_buffer_fails_with_create_buffer() {
    let image = raster(vec![0; 17], 2, 2, ColorType::RGBA, 4);
    assert_eq!(encodable_image(&image).err(), Some(ImageError::CreateBuffer));
    let image = raster(vec![0; 20], 2, 2, ColorType::BGRA, 4);
    assert_eq!(encodable_image(&image).err(), Some(ImageError::CreateBuffer));
    let image = raster(vec![0; 1], 0, 0, ColorType::RGBA, 4);
    assert_eq!(encodable_image(&image).err(), Some(ImageError::CreateBuffer));
}

#[test]
fn ragged_bgra_buffer_fails_with_create_buffer() {
    // The last pixel is cut short after one and after two bytes.
    let image = raster(vec![0; 13], 2, 2, ColorType::BGRA, 4);
    assert_eq!(encodable_image(&image).err(), Some(ImageError::CreateBuffer));
    let image = raster(vec![0; 14], 2, 2, ColorType::BGRA, 4);
    assert_eq!(encodable_image(&image).err(), Some(ImageError::CreateBuffer));
    let image = raster(vec![0; 16], 2, 2, ColorType::BGRA, 0);
    assert_eq!(encodable_image(&image).err(), Some(ImageError::CreateBuffer));
}

#[test]
fn pixel_width_other_than_four_fails_with_create_buffer() {
    // Well formed, but not four bytes per pixel.
    let image = raster(vec![0; 12], 2, 2, ColorType::BGRA, 3);
    assert!(image.is_well_formed());
    assert_eq!(encodable_image(&image).err(), Some(ImageError::CreateBuffer));
    let image = raster(vec![0; 20], 2, 2, ColorType::RGBA, 5);
    assert!(image.is_well_formed());
    assert_eq!(encodable_image(&image).err(), Some(ImageError::CreateBuffer));
    // Sixteen bytes, but the stride says otherwise.
    let image = raster(vec![0; 16], 2, 2, ColorType::RGBA, 8);
    assert_eq!(encodable_image(&image).err(), Some(ImageError::CreateBuffer));
    let image = raster(vec![0; 16], 2, 2, ColorType::RGBA, 2);
    assert_eq!(encodable_image(&image).err(), Some(ImageError::CreateBuffer));
}

#[test]
fn buffer_of_exactly_four_bytes_per_pixel_is_accepted() {
    assert!(encodable_image(&raster(vec![0; 16], 2, 2, ColorType::RGBA, 4)).is_ok());
    assert!(encodable_image(&raster(vec![0; 16], 2, 2, ColorType::BGRA, 4)).is_ok());
    assert!(encodable_image(&raster(vec![0; 4], 1, 1, ColorType::BGRA, 4)).is_ok());
}

#[test]
fn empty_raster_gives_an_empty_image() {
    let shapes = [(0, 0, 4), (0, 9, 4), (9, 0, 4), (0, 0, 3), (5, 0, 0), (0, 5, 200)];
    for (width, height, pw) in shapes {
        for color_type in [ColorType::RGBA, ColorType::BGRA] {
            let empty = raster(Vec::new(), width, height, color_type, pw);
            let img = encodable_image(&empty).unwrap();
            assert_eq!(img.width(), width);
            assert_eq!(img.height(), height);
            assert!(img.as_bytes().is_empty());
            assert_eq!(decoded_image_data(&img).pixel_width, 4);
        }
    }
}

#[test]
fn decoded_image_keeps_bytes_past_the_last_pixel() {
    let bytes: Vec<u8> = (1..=20).collect();
    let img = DynamicImage::ImageRgba8(RgbaImage::from_raw(2, 2, bytes.clone()).unwrap());
    let back = decoded_image_data(&img);
    assert_eq!(back.data, bytes);
    assert_eq!(back.width, 2);
    assert_eq!(back.height, 2);
    assert_eq!(back.pixel_width, 4);
    assert!(!back.is_well_formed());
}

#[test]
fn encodable_image_read_back_is_the_normalized_raster() {
    let image = raster(vec![10, 20, 30, 40, 50, 60, 70, 80], 2, 1, ColorType::BGRA, 4);
    let back = decoded_image_data(&encodable_image(&image).unwrap());
    assert_eq!(back.data, vec![30, 20, 10, 40, 70, 60, 50, 80]);
    assert_eq!(back.width, 2);
    assert_eq!(back.height, 1);
    assert_eq!(back.pixel_width, 4);
    assert_eq!(back.color_type, ColorType::RGBA);
}

#[test]
fn each_failure_has_its_message() {
    assert_eq!(ImageError::CreateBuffer.reason(), "Failed to create image buffer");
    assert_eq!(ImageError::Save.reason(), "Failed to save image");
    assert_eq!(ImageError::Open.reason(), "Failed to open image");
    assert_eq!(ImageError::Dispatch.reason(), "Failed to spawn task");
}
