use std::io::Cursor;

use world_wgpu::texture::{
    decode, image_upload_rows, mip_chain, mip_levels_of, padded_rows, round_up_to_multiple, RgbaPixels, TextureError,
    COPY_BYTES_PER_ROW_ALIGNMENT,
};

fn pixels(width: u32, height: u32) -> RgbaPixels {
    let data: Vec<u8> = (0..width * height * 4).map(|i| (i * 7 % 251) as u8).collect();
    RgbaPixels { width, height, data }
}

fn png_bytes(image: &RgbaPixels) -> Vec<u8> {
    let buffer = image::RgbaImage::from_raw(image.width, image.height, image.data.clone()).unwrap();
    let mut out = Cursor::new(Vec::new());
    image::DynamicImage::ImageRgba8(buffer).write_to(&mut out, image::ImageFormat::Png).unwrap();
    out.into_inner()
}

#[test]
fn round_up_reaches_the_next_multiple() {
    assert_eq!(round_up_to_multiple(1000, 256), 1024);
    assert_eq!(round_up_to_multiple(1024, 256), 1024);
    assert_eq!(round_up_to_multiple(1025, 256), 1280);
    assert_eq!(round_up_to_multiple(0, 256), 0);
    assert_eq!(round_up_to_multiple(7, 1), 7);
}

#[test]
fn padded_rows_pad_each_row_with_zeros() {
    let raw = [1u8, 2, 3, 4, 5, 6, 99];
    let (out, pitch) = padded_rows(&raw, 3, 2, 4);
    assert_eq!(pitch, 4);
    assert_eq!(out, vec![1, 2, 3, 0, 4, 5, 6, 0]);
    let (same, pitch) = padded_rows(&raw, 2, 3, 2);
    assert_eq!(pitch, 2);
    assert_eq!(same, vec![1, 2, 3, 4, 5, 6]);
}

#[test]
fn upload_rows_use_the_copy_alignment() {
    assert_eq!(COPY_BYTES_PER_ROW_ALIGNMENT, 256);
    let image = pixels(3, 2);
    let (out, pitch) = image_upload_rows(&image);
    assert_eq!(pitch, 256);
    assert_eq!(out.len(), 512);
    assert_eq!(&out[0..12], &image.data[0..12]);
    assert!(out[12..256].iter().all(|&b| b == 0));
    assert_eq!(&out[256..268], &image.data[12..24]);
    assert!(out[268..512].iter().all(|&b| b == 0));
}

#[test]
fn mip_chain_halves_down_to_one_pixel() {
    let image = pixels(4, 2);
    let levels = mip_chain(&image);
    let sizes: Vec<(u32, u32)> = levels.iter().map(|l| (l.width, l.height)).collect();
    assert_eq!(sizes, vec![(4, 2), (2, 1), (1, 1)]);
    assert_eq!(levels[0].data, image.data);
    for level in &levels {
        assert_eq!(level.data.len(), (level.width * level.height * 4) as usize);
    }
}

#[test]
fn mip_chain_of_a_single_pixel_is_itself() {
    let image = pixels(1, 1);
    let levels = mip_chain(&image);
    assert_eq!(levels.len(), 1);
    assert_eq!(levels[0].data, image.data);
}

#[test]
fn mip_chain_of_a_tall_strip() {
    let image = pixels(1, 8);
    let sizes: Vec<(u32, u32)> = mip_chain(&image).iter().map(|l| (l.width, l.height)).collect();
    assert_eq!(sizes, vec![(1, 8), (1, 4), (1, 2), (1, 1)]);
}

#[test]
fn resized_level_averages_the_pixels() {
    let image = RgbaPixels { width: 2, height: 2, data: vec![200; 16] };
    let levels = mip_chain(&image);
    assert_eq!(levels[1].width, 1);
    assert_eq!(levels[1].data, vec![200, 200, 200, 200]);
}

#[test]
fn decode_png_gives_the_mip_chain() {
    let image = pixels(8, 4);
    let levels = decode(&png_bytes(&image)).ok().expect("png decodes");
    let sizes: Vec<(u32, u32)> = levels.iter().map(|l| (l.width, l.height)).collect();
    assert_eq!(sizes, vec![(8, 4), (4, 2), (2, 1), (1, 1)]);
    assert_eq!(levels[0].data, image.data);
}

#[test]
fn decode_rejects_bytes_that_are_no_image() {
    match decode(b"certainly not an image") {
        Err(TextureError::Decode(_)) => {}
        _ => panic!("garbage decoded"),
    }
    assert!(matches!(decode(&[]), Err(TextureError::Decode(_))));
}

#[test]
fn mip_levels_of_a_decoded_image() {
    let levels = mip_levels_of(Ok(pixels(2, 2))).ok().expect("chain");
    let sizes: Vec<(u32, u32)> = levels.iter().map(|l| (l.width, l.height)).collect();
    assert_eq!(sizes, vec![(2, 2), (1, 1)]);
    let empty = mip_levels_of(Ok(RgbaPixels { width: 0, height: 0, data: Vec::new() })).ok().expect("chain");
    assert_eq!(empty.len(), 1);
    assert_eq!((empty[0].width, empty[0].height), (0, 0));
}
