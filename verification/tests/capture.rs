use screen_search::{captured_image_data, display_at, image_search};
use screen_search::{ColorType, ImageData, Point};

#[test]
fn tight_rows_are_kept_as_they_are() {
    let data = vec![1, 2, 3, 4, 5, 6, 7, 8];
    let out = captured_image_data(&data, 2, 1, 32, 8).unwrap();
    assert_eq!(out.data, vec![1, 2, 3, 4, 5, 6, 7, 8]);
    assert_eq!(out.width, 2);
    assert_eq!(out.height, 1);
    assert_eq!(out.pixel_width, 4);
    assert_eq!(out.color_type, ColorType::BGRA);
    assert!(out.is_well_formed());
    assert!(out.is_searchable());
}

#[test]
fn row_padding_is_left_out() {
    // Two rows of two pixels, each row followed by four bytes of padding.
    let data: Vec<u8> = (1..=24).collect();
    let out = captured_image_data(&data, 2, 2, 32, 12).unwrap();
    assert_eq!(out.data, vec![1, 2, 3, 4, 5, 6, 7, 8, 13, 14, 15, 16, 17, 18, 19, 20]);
    assert_eq!(out.width, 2);
    assert_eq!(out.height, 2);
    assert_eq!(out.pixel_width, 4);
    assert!(out.is_well_formed());
}

#[test]
fn last_row_needs_no_padding() {
    let data: Vec<u8> = (1..=20).collect();
    let out = captured_image_data(&data, 2, 2, 32, 12).unwrap();
    assert_eq!(out.data, vec![1, 2, 3, 4, 5, 6, 7, 8, 13, 14, 15, 16, 17, 18, 19, 20]);
    let short: Vec<u8> = (1..=19).collect();
    assert!(captured_image_data(&short, 2, 2, 32, 12).is_none());
}

#[test]
fn bytes_past_the_last_row_are_dropped() {
    let data: Vec<u8> = (1..=11).collect();
    let out = captured_image_data(&data, 1, 2, 24, 4).unwrap();
    assert_eq!(out.data, vec![1, 2, 3, 5, 6, 7]);
    assert_eq!(out.pixel_width, 3);
    assert!(out.is_searchable());
}

#[test]
fn bits_per_pixel_are_divided_rounding_down() {
    let data = vec![0; 64];
    assert_eq!(captured_image_data(&data, 1, 1, 24, 8).unwrap().pixel_width, 3);
    assert_eq!(captured_image_data(&data, 1, 1, 31, 8).unwrap().pixel_width, 3);
    assert_eq!(captured_image_data(&data, 1, 1, 64, 8).unwrap().pixel_width, 8);
    assert_eq!(captured_image_data(&data, 1, 1, 7, 8).unwrap().pixel_width, 0);
    assert_eq!(captured_image_data(&data, 1, 1, 0, 8).unwrap().pixel_width, 0);
    assert!(captured_image_data(&data, 1, 1, 7, 8).unwrap().data.is_empty());
}

#[test]
fn capture_that_does_not_fit_gives_nothing() {
    let data = vec![0; 16];
    // A row of two pixels does not fit in seven bytes.
    assert!(captured_image_data(&data, 2, 2, 32, 7).is_none());
    // The second row ends past the buffer.
    assert!(captured_image_data(&data, 2, 2, 32, 9).is_none());
    assert!(captured_image_data(&data, 2, 3, 32, 8).is_none());
    assert!(captured_image_data(&Vec::new(), 1, 1, 32, 4).is_none());
    // It fits exactly.
    assert!(captured_image_data(&data, 2, 2, 32, 8).is_some());
}

#[test]
fn values_too_large_for_a_raster_give_nothing() {
    let data = vec![0; 16];
    // 256 bytes per pixel do not fit in eight bits.
    assert!(captured_image_data(&data, 0, 0, 256 * 8, 0).is_none());
    assert!(captured_image_data(&data, 0, 0, 255 * 8, 0).is_some());
    let max = u32::MAX as usize;
    assert!(captured_image_data(&data, max, 0, 32, usize::MAX).is_some());
    assert!(captured_image_data(&data, 0, max, 32, 0).is_some());
    if usize::BITS > 32 {
        assert!(captured_image_data(&data, max + 1, 0, 32, usize::MAX).is_none());
        assert!(captured_image_data(&data, 0, max + 1, 32, 0).is_none());
    }
    // Many rows far apart: the end of the last row is computed without wrapping.
    assert!(captured_image_data(&data, 1, max, 32, usize::MAX).is_none());
}

#[test]
fn empty_captures_give_empty_rasters() {
    let data = vec![9; 16];
    let no_rows = captured_image_data(&data, 3, 0, 32, 12).unwrap();
    assert!(no_rows.data.is_empty());
    assert_eq!(no_rows.width, 3);
    assert_eq!(no_rows.height, 0);
    assert!(no_rows.is_well_formed());
    let no_columns = captured_image_data(&data, 0, 3, 32, 4).unwrap();
    assert!(no_columns.data.is_empty());
    assert_eq!(no_columns.width, 0);
    assert_eq!(no_columns.height, 3);
    assert!(no_columns.is_well_formed());
    assert!(captured_image_data(&Vec::new(), 0, 0, 32, 0).unwrap().data.is_empty());
}

#[test]
fn target_is_found_in_a_padded_capture() {
    // Two rows of one pixel, each followed by a pixel of padding that would
    // match if it were read.
    let data = vec![0, 0, 0, 255, 10, 20, 30, 255, 1, 1, 1, 255, 10, 20, 30, 255];
    let capture = captured_image_data(&data, 1, 2, 32, 8).unwrap();
    let target = ImageData {
        data: vec![30, 20, 10, 255],
        width: 1,
        height: 1,
        color_type: ColorType::RGBA,
        pixel_width: 4,
    };
    assert_eq!(image_search(&capture, &target, None), None);
    let grey = ImageData {
        data: vec![1, 1, 1, 255],
        width: 1,
        height: 1,
        color_type: ColorType::RGBA,
        pixel_width: 4,
    };
    assert_eq!(image_search(&capture, &grey, None), Some(Point { x: 0, y: 1 }));
}

#[test]
fn display_is_picked_by_position() {
    let active = vec![7, 11, 13];
    assert_eq!(display_at(&active, 0), Some(7));
    assert_eq!(display_at(&active, 1), Some(11));
    assert_eq!(display_at(&active, 2), Some(13));
    assert_eq!(display_at(&active, 3), None);
    assert_eq!(display_at(&active, u32::MAX), None);
    assert_eq!(display_at(&Vec::new(), 0), None);
}
