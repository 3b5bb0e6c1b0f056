use wakfu_png::error::ReadError;
use wakfu_png::frames::{FrameRect, Frames};

fn header(total: u32, w: u16, h: u16) -> Vec<u8> {
    let mut v = Vec::new();
    v.extend_from_slice(&total.to_le_bytes());
    v.extend_from_slice(&w.to_le_bytes());
    v.extend_from_slice(&h.to_le_bytes());
    v.extend_from_slice(&0u16.to_le_bytes());
    v.extend_from_slice(&0u16.to_le_bytes());
    v
}

#[test]
fn frame_times_are_sums_of_earlier_durations() {
    let f = Frames::new(9, &[2, 3, 4], Vec::new());
    assert_eq!(f._total_time, 9);
    assert_eq!(f._frame_times, vec![0, 2, 5]);
    assert!(f._frame_rects.is_empty());
}

#[test]
fn frame_times_of_no_frames() {
    let f = Frames::new(0, &[], Vec::new());
    assert!(f._frame_times.is_empty());
}

#[test]
fn frames_read_durations_and_corners() {
    let mut bytes = header(100, 10, 20);
    for d in [5u16, 7] {
        bytes.extend_from_slice(&d.to_le_bytes());
    }
    for c in [1i16, 2, -3, 4] {
        bytes.extend_from_slice(&c.to_le_bytes());
    }
    let (f, n) = Frames::try_read(&bytes, 2).unwrap();
    assert_eq!(n, bytes.len());
    assert_eq!(f._total_time, 100);
    assert_eq!(f._frame_times, vec![0, 5]);
    assert_eq!(f._frame_rects[0], FrameRect { x: 1, y: 2, width: 11, height: 22 });
    assert_eq!(
        f._frame_rects[1],
        FrameRect { x: (-3i32) as u32, y: 4, width: 7, height: 24 }
    );
}

#[test]
fn frame_corner_left_of_the_texture_saturates_to_zero() {
    let mut bytes = header(1, 2, 2);
    bytes.extend_from_slice(&1u16.to_le_bytes());
    for c in [-5i16, -1] {
        bytes.extend_from_slice(&c.to_le_bytes());
    }
    let (f, _) = Frames::try_read(&bytes, 1).unwrap();
    assert_eq!(f._frame_rects[0], FrameRect { x: 0xFFFF_FFFB, y: 0xFFFF_FFFF, width: 0, height: 1 });
}

#[test]
fn frames_with_an_odd_coordinate_drop_it() {
    let mut bytes = header(1, 1, 1);
    for d in [1u16, 1] {
        bytes.extend_from_slice(&d.to_le_bytes());
    }
    for c in [3i16, 4, 5] {
        bytes.extend_from_slice(&c.to_le_bytes());
    }
    let (f, n) = Frames::try_read(&bytes, 2).unwrap();
    assert_eq!(f._frame_rects.len(), 1);
    assert_eq!(n, bytes.len());
}

#[test]
fn frames_without_header_are_incomplete() {
    assert_eq!(Frames::try_read(&[0; 11], 0).unwrap_err(), ReadError::Incomplete);
}
