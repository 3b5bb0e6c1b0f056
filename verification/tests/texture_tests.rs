use wakfu_png::error::ReadError;
use wakfu_png::tga::{Color, Tga, TgaHeader, TgaLoader};
use wakfu_png::tgam::{Tgam, TgamLoader};

fn tga_header(cm_len: i16, cm_depth: i8, width: u16, height: u16, depth: i8) -> Vec<u8> {
    let mut v = vec![0u8, 0, 2];
    v.extend_from_slice(&0i16.to_le_bytes());
    v.extend_from_slice(&cm_len.to_le_bytes());
    v.push(cm_depth as u8);
    v.extend_from_slice(&0i16.to_le_bytes());
    v.extend_from_slice(&0i16.to_le_bytes());
    v.extend_from_slice(&width.to_le_bytes());
    v.extend_from_slice(&height.to_le_bytes());
    v.push(depth as u8);
    v.push(0);
    v
}

#[test]
fn tga_header_fields() {
    let (h, n) = TgaHeader::try_read(&tga_header(3, 24, 640, 480, 32)).unwrap();
    assert_eq!(n, 18);
    assert_eq!((h.width(), h.height(), h.bit_depth()), (640, 480, 32));
    assert_eq!((h.color_map_length(), h.color_map_bit_depth()), (3, 24));
    assert_eq!(TgaHeader::try_read(&[0; 17]).unwrap_err(), ReadError::Incomplete);
}

#[test]
fn tga_pixels_follow_the_header() {
    let mut bytes = tga_header(0, 0, 2, 2, 24);
    bytes.extend(1..=12u8);
    bytes.push(99);
    let (t, n) = Tga::try_read(&bytes).unwrap();
    assert_eq!(n, 30);
    assert_eq!(t.bytes(), &(1..=12u8).collect::<Vec<u8>>()[..]);
    assert_eq!((t.width(), t.height()), (2, 2));
    assert!(t.palette.is_none());
}

#[test]
fn tga_row_size_rounds_down() {
    let mut bytes = tga_header(0, 0, 3, 1, 4);
    bytes.extend([7u8, 8]);
    let (t, n) = Tga::try_read(&bytes).unwrap();
    assert_eq!((t.bytes().len(), n), (1, 19));
}

#[test]
fn tga_palette_is_read_for_small_depths() {
    let mut bytes = tga_header(2, 24, 1, 1, 8);
    bytes.extend([10u8, 20, 30, 0xFF, 0x80, 5]);
    bytes.push(42);
    let (t, n) = Tga::try_read(&bytes).unwrap();
    assert_eq!(n, bytes.len());
    let colors = &t.palette.unwrap().colors;
    assert_eq!(colors.len(), 2);
    assert_eq!(colors[0].abgr, (10 << 24) | (30 << 8) | (20 << 16));
    assert_eq!(colors[1].abgr, 5 << 8);
    assert_eq!(t.bytes, vec![42]);
}

#[test]
fn tga_color_map_of_other_depths_is_skipped() {
    let mut bytes = tga_header(2, 3, 1, 1, 8 * 3);
    bytes.extend([0u8; 6]);
    bytes.extend([1u8, 2, 3]);
    let (t, n) = Tga::try_read(&bytes).unwrap();
    assert_eq!(n, 18 + 6 + 3);
    assert_eq!(t.bytes, vec![1, 2, 3]);
}

#[test]
fn tga_errors() {
    let mut short = tga_header(0, 0, 2, 2, 8);
    short.extend([1u8, 2, 3]);
    assert_eq!(Tga::try_read(&short).unwrap_err(), ReadError::Incomplete);
    let back = tga_header(-10, 2, 1, 1, 24);
    assert_eq!(Tga::try_read(&back).unwrap_err(), ReadError::BadOffset(usize::MAX - 1));
    assert_eq!(TgaLoader::load(&back).unwrap_err(), ReadError::Incomplete);
    let past = tga_header(10, 2, 1, 1, 24);
    assert_eq!(Tga::try_read(&past).unwrap_err(), ReadError::BadOffset(38));
    assert_eq!(TgaLoader::load(&past).unwrap_err(), ReadError::Incomplete);
}

#[test]
fn color_packs_clamped_channels() {
    assert_eq!(Color::new(1, 2, 3, 4).abgr, 1 | (2 << 8) | (3 << 16) | (4 << 24));
    assert_eq!(Color::new(-5, 300, 0, 255).abgr, ((255u32 << 8) | (255u32 << 24)) as i32);
}

fn tgam_bytes(marker: u8, sig: &[u8; 3], w: u16, h: u16, tga: &[u8], mask: &[u8]) -> Vec<u8> {
    let mut v = vec![marker];
    v.extend_from_slice(sig);
    v.extend_from_slice(&w.to_le_bytes());
    v.extend_from_slice(&h.to_le_bytes());
    v.extend_from_slice(&(tga.len() as u32).to_le_bytes());
    v.extend_from_slice(&(mask.len() as u32).to_le_bytes());
    if marker == b'm' {
        v.push(4);
    }
    v.extend_from_slice(tga);
    v.extend_from_slice(mask);
    v
}

#[test]
fn tgam_reads_image_and_mask() {
    let bytes = tgam_bytes(b'm', b"AGT", 5, 64, &[1, 2, 3], &[9, 8]);
    let (t, n) = Tgam::try_read(&bytes).unwrap();
    assert_eq!(n, bytes.len());
    assert_eq!(t.bytes(), &[1, 2, 3]);
    assert_eq!((t.mask.bytes.clone(), t.mask.resize), (vec![9, 8], 4));
    assert_eq!((t.width(), t.height()), (8, 64));
    let (t, _) = Tgam::try_read(&tgam_bytes(b'x', b"AGT", 1, 0, &[], &[])).unwrap();
    assert_eq!((t.mask.resize, t.width(), t.height()), (1, 1, 1));
}

#[test]
fn tgam_errors() {
    let bad = tgam_bytes(b'x', b"TGA", 1, 1, &[], &[]);
    assert_eq!(Tgam::try_read(&bad).unwrap_err(), ReadError::BadInput);
    let mut short = tgam_bytes(b'x', b"AGT", 1, 1, &[1, 2], &[3]);
    short.pop();
    assert_eq!(Tgam::try_read(&short).unwrap_err(), ReadError::Incomplete);
    assert_eq!(TgamLoader::load(&[0, b'A']).unwrap_err(), ReadError::Incomplete);
}

#[test]
fn tga_checked_reading_reports_where_reading_stops() {
    // A skipped color map whose size does not fit an i16.
    assert!(Tga::read_checked(&tga_header(2000, 24, 0, 0, 32)).is_none());
    assert!(TgaLoader::load_checked(&tga_header(2000, 24, 0, 0, 32)).is_none());
    // One that moves the offset back by at most 18 bytes.
    assert!(Tga::read_checked(&tga_header(-1, 16, 0, 0, 32)).is_none());
    assert!(Tga::read_checked(&tga_header(1, -18, 0, 0, 32)).is_none());
    // By more, the offset wraps past the end.
    let back = tga_header(-1, 19, 0, 0, 32);
    assert!(matches!(Tga::read_checked(&back), Some(Err(ReadError::BadOffset(_)))));
    assert!(matches!(TgaLoader::load_checked(&back), Some(Err(ReadError::Incomplete))));
    let ok = tga_header(0, 0, 0, 0, 32);
    let (t, n) = Tga::read_checked(&ok).unwrap().unwrap();
    assert_eq!((t.width(), n), (0, 18));
}
