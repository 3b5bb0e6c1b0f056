use std::io::Cursor;

use image::{DynamicImage, ImageOutputFormat, RgbImage, RgbaImage};
use wakfu_png::pixels::corner_pixels;
use wakfu_png::png::{atlas_from_decoded, decode_atlas, AtlasError};
use wakfu_png::sprite::{dynamic_animation_name, statique_animation_name};
use wakfu_png::tga::{flipped_rows, Tga, TgaHeader};
use wakfu_png::tgam::{texture_pixels, AlphaMask, Tgam};
use wakfu_png::utils::push_decimal;

/// A 3 by 2 image whose pixel (x, y) is [10y + x, 1, 2, 3].
fn three_by_two() -> Vec<u8> {
    let mut v = Vec::new();
    for y in 0..2u8 {
        for x in 0..3u8 {
            v.extend_from_slice(&[10 * y + x, 1, 2, 3]);
        }
    }
    v
}

fn firsts(v: &[u8]) -> Vec<u8> {
    v.chunks(4).map(|p| p[0]).collect()
}

#[test]
fn corner_cuts_and_mirrors() {
    let img = three_by_two();
    let plain = corner_pixels(&img, 3, 2, 2, 2, false, false).unwrap();
    assert_eq!(plain.len(), 16);
    assert_eq!(firsts(&plain), vec![0, 1, 10, 11]);
    assert_eq!(&plain[0..4], &[0, 1, 2, 3]);
    let mirrored = corner_pixels(&img, 3, 2, 2, 2, true, false).unwrap();
    assert_eq!(firsts(&mirrored), vec![1, 0, 11, 10]);
    let upside_down = corner_pixels(&img, 3, 2, 3, 2, false, true).unwrap();
    assert_eq!(firsts(&upside_down), vec![10, 11, 12, 0, 1, 2]);
    let empty = corner_pixels(&img, 3, 2, 0, 0, true, true).unwrap();
    assert!(empty.is_empty());
}

#[test]
fn corner_of_a_short_image_is_none() {
    let img = three_by_two();
    assert_eq!(corner_pixels(&img[..23], 3, 2, 1, 1, false, false), None);
    // a short image gives none even where the corner would be past its edge
    assert_eq!(corner_pixels(&img[..23], 3, 2, 9, 9, false, false), None);
    assert!(corner_pixels(&img, 3, 2, 3, 2, false, false).is_some());
}

#[test]
fn texture_corner_uses_the_padded_size() {
    // 3 by 1 is padded to 4 by 1: sixteen bytes
    let bytes: Vec<u8> = (0..16).collect();
    let tgam = Tgam { width: 3, height: 1, bytes, mask: AlphaMask { bytes: vec![], resize: 1 } };
    assert_eq!(texture_pixels(&tgam, 2, 1, false), Some(vec![0, 1, 2, 3, 4, 5, 6, 7]));
    assert_eq!(texture_pixels(&tgam, 2, 1, true), Some(vec![4, 5, 6, 7, 0, 1, 2, 3]));
    assert_eq!(texture_pixels(&tgam, 4, 1, true).unwrap()[0..4], [12, 13, 14, 15]);
    let short = Tgam { width: 3, height: 1, bytes: vec![0; 12], mask: AlphaMask { bytes: vec![], resize: 1 } };
    assert_eq!(texture_pixels(&short, 2, 1, false), None);
}

fn header(width: u16, height: u16) -> TgaHeader {
    TgaHeader {
        id_length: 0,
        color_map_type: 0,
        image_type: 2,
        color_map_start: 0,
        color_map_length: 0,
        color_map_bit_depth: 0,
        start_x: 0,
        start_y: 0,
        width,
        height,
        bit_depth: 32,
        desc: 0,
    }
}

#[test]
fn particle_rows_are_reversed() {
    let tga = Tga { header: header(3, 2), palette: None, bytes: three_by_two() };
    let rows = flipped_rows(&tga).unwrap();
    assert_eq!(firsts(&rows), vec![10, 11, 12, 0, 1, 2]);
    let short = Tga { header: header(3, 2), palette: None, bytes: vec![0; 20] };
    assert_eq!(flipped_rows(&short), None);
}

fn png_of(image: DynamicImage) -> Vec<u8> {
    let mut out = Cursor::new(Vec::new());
    image.write_to(&mut out, ImageOutputFormat::Png).unwrap();
    out.into_inner()
}

#[test]
fn atlas_decodes_rgba_pngs() {
    let pixels = vec![1, 2, 3, 4, 5, 6, 7, 8];
    let png = png_of(DynamicImage::ImageRgba8(RgbaImage::from_raw(2, 1, pixels.clone()).unwrap()));
    assert_eq!(decode_atlas(&png), Ok((2, 1, pixels)));
}

#[test]
fn atlas_errors() {
    let rgb = png_of(DynamicImage::ImageRgb8(RgbImage::from_raw(1, 1, vec![9, 9, 9]).unwrap()));
    assert_eq!(decode_atlas(&rgb), Err(AtlasError::NotRgba8));
    assert_eq!(decode_atlas(b"not a png at all"), Err(AtlasError::NotPng));
    assert_eq!(atlas_from_decoded(None), Err(AtlasError::NotPng));
    assert_eq!(atlas_from_decoded(Some(None)), Err(AtlasError::NotRgba8));
    assert_eq!(atlas_from_decoded(Some(Some((1, 1, vec![1, 2, 3, 4])))), Ok((1, 1, vec![1, 2, 3, 4])));
}

#[test]
fn animation_names() {
    assert_eq!(statique_animation_name(3, 12), b"3_AnimStatique_12".to_vec());
    assert_eq!(statique_animation_name(-1, -300), b"-1_AnimStatique_-300".to_vec());
    assert_eq!(statique_animation_name(0, 0), b"0_AnimStatique_0".to_vec());
    assert_eq!(dynamic_animation_name(5, &b"AnimMarche".to_vec()), b"5_AnimMarche".to_vec());
    assert_eq!(dynamic_animation_name(-128, &vec![]), b"-128_".to_vec());
}

#[test]
fn decimal_text_of_the_extremes() {
    let mut out = b"x".to_vec();
    push_decimal(&mut out, i32::MIN);
    assert_eq!(out, b"x-2147483648".to_vec());
    let mut out = Vec::new();
    push_decimal(&mut out, i32::MAX);
    assert_eq!(out, b"2147483647".to_vec());
}
