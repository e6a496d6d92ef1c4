use rgba_transform::{
    apply_grayscale, compress, compress_image, grayscale, merge_half, merge_half_images,
    ErrorKind, RgbaImage,
};

fn image(width: u32, height: u32, bytes: Vec<u8>) -> RgbaImage {
    match RgbaImage::from_raw(width, height, bytes) {
        Ok(img) => img,
        Err(e) => panic!("unexpected error: {:?}", e),
    }
}

#[test]
fn grayscale_of_example_pixel() {
    let out = apply_grayscale(1, 1, vec![100, 150, 200, 255]);
    assert_eq!(out, Ok(vec![140, 140, 140, 255]));
}

#[test]
fn grayscale_keeps_alpha() {
    let input = vec![10, 20, 30, 0, 200, 100, 50, 77, 255, 255, 255, 128, 0, 0, 0, 255];
    let out = apply_grayscale(2, 2, input.clone()).unwrap();
    assert_eq!(out.len(), input.len());
    for p in 0..4 {
        assert_eq!(out[4 * p + 3], input[4 * p + 3]);
        assert_eq!(out[4 * p], out[4 * p + 1]);
        assert_eq!(out[4 * p], out[4 * p + 2]);
    }
    // 0.299 * 200 + 0.587 * 100 + 0.114 * 50 = 124.2
    assert_eq!(out[4], 124);
    assert_eq!(out[8], 255);
    assert_eq!(out[12], 0);
}

#[test]
fn grayscale_of_gray_image_is_unchanged() {
    let input = vec![0, 0, 0, 255, 1, 1, 1, 9, 128, 128, 128, 0, 255, 255, 255, 255];
    let once = apply_grayscale(4, 1, input.clone()).unwrap();
    assert_eq!(once, input);
    let twice = apply_grayscale(4, 1, once.clone()).unwrap();
    assert_eq!(twice, once);
}

#[test]
fn grayscale_is_idempotent() {
    let input = vec![12, 200, 33, 4, 99, 1, 250, 100];
    let once = apply_grayscale(2, 1, input).unwrap();
    let twice = apply_grayscale(2, 1, once.clone()).unwrap();
    assert_eq!(twice, once);
}

#[test]
fn grayscale_on_image_keeps_dimensions() {
    let img = image(1, 2, vec![100, 150, 200, 255, 0, 0, 255, 1]);
    let out = grayscale(&img);
    assert_eq!(out.width(), 1);
    assert_eq!(out.height(), 2);
    // 0.114 * 255 = 29.07
    assert_eq!(out.flatten(), vec![140, 140, 140, 255, 29, 29, 29, 1]);
}

#[test]
fn compress_at_full_quality_is_unchanged() {
    let input: Vec<u8> = (0..=255).collect();
    let out = compress_image(8, 8, input.clone(), 1000).unwrap();
    assert_eq!(out, input);
}

#[test]
fn compress_clamps_low_quality() {
    let input: Vec<u8> = (0..=255).rev().collect();
    let floor = compress_image(16, 4, input.clone(), 100).unwrap();
    assert_eq!(compress_image(16, 4, input.clone(), 0).unwrap(), floor);
    assert_eq!(compress_image(16, 4, input.clone(), 50).unwrap(), floor);
    assert_eq!(compress_image(16, 4, input, 99).unwrap(), floor);
}

#[test]
fn compress_exact_values() {
    // quality 0.5: 123 * 0.5 = 61.5 rounds to 62, back to 124
    let out = compress_image(1, 1, vec![123, 1, 0, 7], 500).unwrap();
    assert_eq!(out, vec![124, 2, 0, 7]);
    // quality 0.1: 254 -> 25.4 -> 25 -> 250; 255 -> 25.5 -> 26 -> 260, capped
    let out = compress_image(1, 1, vec![254, 255, 4, 200], 100).unwrap();
    assert_eq!(out, vec![250, 255, 0, 200]);
    // quality 2.0 keeps whole values
    let out = compress_image(1, 1, vec![17, 250, 3, 1], 2000).unwrap();
    assert_eq!(out, vec![17, 250, 3, 1]);
}

#[test]
fn compress_on_image_keeps_alpha() {
    let img = image(2, 1, vec![9, 14, 15, 33, 201, 202, 203, 204]);
    let out = compress(&img, 100).flatten();
    assert_eq!(out, vec![10, 10, 20, 33, 200, 200, 200, 204]);
}

#[test]
fn merge_width_four_splits_at_two() {
    let a: Vec<u8> = (0..32).collect();
    let b: Vec<u8> = (100..132).collect();
    let out = merge_half_images(4, 2, a.clone(), b.clone()).unwrap();
    for y in 0..2 {
        for x in 0..4 {
            for k in 0..4 {
                let i = 4 * (y * 4 + x) + k;
                if x < 2 {
                    assert_eq!(out[i], a[i]);
                } else {
                    assert_eq!(out[i], b[i]);
                }
            }
        }
    }
}

#[test]
fn merge_odd_width_gives_right_half_the_extra_column() {
    let a = vec![1u8; 12];
    let b = vec![2u8; 12];
    let out = merge_half_images(3, 1, a, b).unwrap();
    assert_eq!(out, vec![1, 1, 1, 1, 2, 2, 2, 2, 2, 2, 2, 2]);
}

#[test]
fn merge_width_one_takes_second_image() {
    let out = merge_half_images(1, 2, vec![1; 8], vec![2; 8]).unwrap();
    assert_eq!(out, vec![2; 8]);
}

#[test]
fn buffer_length_mismatch_is_reported() {
    assert_eq!(apply_grayscale(2, 2, vec![0; 10]), Err(ErrorKind::BufferSizeMismatch));
    assert_eq!(compress_image(2, 2, vec![0; 10], 500), Err(ErrorKind::BufferSizeMismatch));
    assert_eq!(
        merge_half_images(2, 2, vec![0; 10], vec![0; 16]),
        Err(ErrorKind::BufferSizeMismatch)
    );
    assert_eq!(
        merge_half_images(2, 2, vec![0; 10], vec![0; 10]),
        Err(ErrorKind::BufferSizeMismatch)
    );
    assert_eq!(apply_grayscale(2, 2, vec![0; 20]), Err(ErrorKind::BufferSizeMismatch));
    assert!(RgbaImage::from_raw(2, 2, vec![0; 10]).is_err());
}

#[test]
fn huge_dimensions_are_a_mismatch() {
    assert_eq!(
        apply_grayscale(u32::MAX, u32::MAX, vec![0; 4]),
        Err(ErrorKind::BufferSizeMismatch)
    );
    // an empty image is accepted only where a row of its width is addressable
    let row_fits = (u32::MAX as usize).checked_mul(4).is_some();
    let expected = if row_fits { Ok(vec![]) } else { Err(ErrorKind::BufferSizeMismatch) };
    assert_eq!(apply_grayscale(u32::MAX, 0, vec![]), expected);
    assert_eq!(apply_grayscale(1 << 30, 0, vec![]), expected);
}

#[test]
fn empty_image_is_accepted() {
    assert_eq!(apply_grayscale(0, 0, vec![]), Ok(vec![]));
    assert_eq!(compress_image(0, 5, vec![], 300), Ok(vec![]));
    assert_eq!(merge_half_images(0, 0, vec![], vec![]), Ok(vec![]));
}

#[test]
fn merge_buffers_of_other_dimensions_are_reported() {
    assert_eq!(
        merge_half_images(4, 4, vec![0; 64], vec![0; 48]),
        Err(ErrorKind::DimensionMismatch)
    );
    assert_eq!(
        merge_half_images(2, 2, vec![0; 16], vec![0; 10]),
        Err(ErrorKind::DimensionMismatch)
    );
    assert_eq!(
        merge_half_images(2, 2, vec![0; 16], vec![0; 20]),
        Err(ErrorKind::DimensionMismatch)
    );
}

#[test]
fn merge_dimension_mismatch_is_reported() {
    let a = image(4, 4, vec![0; 64]);
    let b = image(4, 3, vec![0; 48]);
    assert_eq!(merge_half(&a, &b).err(), Some(ErrorKind::DimensionMismatch));
    let c = image(3, 4, vec![0; 48]);
    assert_eq!(merge_half(&a, &c).err(), Some(ErrorKind::DimensionMismatch));
}

#[test]
fn merge_half_of_images() {
    let a = image(2, 1, vec![1, 2, 3, 4, 5, 6, 7, 8]);
    let b = image(2, 1, vec![9, 10, 11, 12, 13, 14, 15, 16]);
    let m = match merge_half(&a, &b) {
        Ok(m) => m,
        Err(e) => panic!("unexpected error: {:?}", e),
    };
    assert_eq!(m.flatten(), vec![1, 2, 3, 4, 13, 14, 15, 16]);
}

#[test]
fn blank_image_is_transparent_black() {
    let img = RgbaImage::new_blank(3, 2);
    assert_eq!(img.width(), 3);
    assert_eq!(img.height(), 2);
    assert_eq!(img.get(2, 1), [0, 0, 0, 0]);
    assert_eq!(img.flatten(), vec![0; 24]);
}

#[test]
fn get_and_set_address_row_major_pixels() {
    let bytes: Vec<u8> = (0..24).collect();
    let mut img = image(3, 2, bytes);
    assert_eq!(img.get(0, 0), [0, 1, 2, 3]);
    assert_eq!(img.get(2, 0), [8, 9, 10, 11]);
    assert_eq!(img.get(1, 1), [16, 17, 18, 19]);
    img.set(0, 1, [200, 201, 202, 203]);
    assert_eq!(img.get(0, 1), [200, 201, 202, 203]);
    let out = img.flatten();
    assert_eq!(&out[12..16], &[200, 201, 202, 203]);
    assert_eq!(&out[0..12], &(0..12).collect::<Vec<u8>>()[..]);
    assert_eq!(&out[16..24], &(16..24).collect::<Vec<u8>>()[..]);
}

#[test]
fn error_messages_name_the_error() {
    assert_eq!(
        ErrorKind::BufferSizeMismatch.message(),
        "buffer length does not match width * height * 4"
    );
    assert_eq!(ErrorKind::DimensionMismatch.message(), "images differ in width or height");
}
