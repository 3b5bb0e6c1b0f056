use bytebuffer::ByteBuffer;
use wakfu_png::anm_frame_data::{AnmFrameData, DataContainer, I32Container, I8Container};
use wakfu_png::anm_frame_processor::{read_and_process, ColorStep, RotationStep, TransformStep, TranslationStep};
use wakfu_png::error::ReadError;
use wakfu_png::float_bits::f32_bits_times_16_as_i16;

fn cursor(c: &DataContainer) -> i32 {
    match c {
        DataContainer::I8(x) => x.cur,
        DataContainer::I16(x) => x.cur,
        DataContainer::I32(x) => x.cur,
        DataContainer::Empty => -1,
    }
}

#[test]
fn containers_read_from_their_cursor() {
    let mut c = DataContainer::I8(I8Container::new(vec![5, -6, 7]));
    assert_eq!(c.read(), 5);
    assert_eq!(c.read(), -6);
    c.begin(2);
    assert_eq!(c.read(), 7);
    let mut e = DataContainer::Empty;
    assert_eq!(e.read(), 0);
    e.begin(4);
    assert_eq!(e.read(), 0);
}

#[test]
fn frame_data_reads_each_width() {
    let mut b = ByteBuffer::from_vec(vec![2, 0, 0, 0, 2, 0xFF, 0xFE, 0x00, 0x03]);
    match AnmFrameData::create(&mut b).unwrap() {
        DataContainer::I16(x) => assert_eq!((x.cur, x.data), (0, vec![-2, 3])),
        _ => panic!("expected 16-bit data"),
    }
    let mut b = ByteBuffer::from_vec(vec![1, 0, 0, 0, 1, 0x80]);
    match AnmFrameData::create(&mut b).unwrap() {
        DataContainer::I8(x) => assert_eq!(x.data, vec![-128]),
        _ => panic!("expected 8-bit data"),
    }
    let mut b = ByteBuffer::from_vec(vec![3, 0, 0, 0, 0]);
    assert_eq!(AnmFrameData::create(&mut b).unwrap_err(), ReadError::TypeNotFound);
    let mut b = ByteBuffer::from_vec(vec![4, 0, 0, 0, 1, 0, 0]);
    assert_eq!(AnmFrameData::create(&mut b).unwrap_err(), ReadError::Incomplete);
}

#[test]
fn step_types_read_their_offsets_in_order() {
    let data = || DataContainer::I32(I32Container::new(vec![10, 20, 30, 40]));
    let cases = [
        (0, TransformStep::Apply(ColorStep::Keep, RotationStep::Keep, TranslationStep::Keep), 0),
        (1, TransformStep::Apply(ColorStep::Keep, RotationStep::Rotate(10), TranslationStep::Keep), 1),
        (2, TransformStep::Apply(ColorStep::Keep, RotationStep::Keep, TranslationStep::Translate(10)), 1),
        (3, TransformStep::Apply(ColorStep::Keep, RotationStep::Rotate(10), TranslationStep::Translate(20)), 2),
        (4, TransformStep::Apply(ColorStep::Mult(10), RotationStep::Keep, TranslationStep::Keep), 1),
        (8, TransformStep::Apply(ColorStep::Add(10), RotationStep::Keep, TranslationStep::Keep), 1),
        (12, TransformStep::Apply(ColorStep::MultAdd(10, 20), RotationStep::Keep, TranslationStep::Keep), 2),
        (13, TransformStep::Apply(ColorStep::MultAdd(10, 20), RotationStep::Rotate(30), TranslationStep::Keep), 3),
        (15, TransformStep::Apply(ColorStep::MultAdd(10, 20), RotationStep::Rotate(30), TranslationStep::Translate(40)), 4),
        (6, TransformStep::Apply(ColorStep::Mult(10), RotationStep::Keep, TranslationStep::Translate(20)), 2),
        (16, TransformStep::Skip, 0),
        (-1, TransformStep::Skip, 0),
    ];
    for (t, step, reads) in cases {
        let mut c = data();
        assert_eq!(read_and_process(t, &mut c), step, "type {t}");
        assert_eq!(cursor(&c), reads, "type {t}");
    }
    let mut e = DataContainer::Empty;
    assert_eq!(
        read_and_process(9, &mut e),
        TransformStep::Apply(ColorStep::Add(0), RotationStep::Rotate(0), TranslationStep::Keep)
    );
}

#[test]
fn float_bits_times_sixteen_match_float_arithmetic() {
    let values = [
        0.0f32, -0.0, 1.0, -1.0, 0.5, 0.03125, 0.03, -0.07, 2047.9, 2048.0, -2048.0, -2048.1,
        1.0e-40, 123.456, -3.999, f32::MAX, f32::MIN, f32::INFINITY, f32::NEG_INFINITY, f32::NAN,
    ];
    for v in values {
        assert_eq!(f32_bits_times_16_as_i16(v.to_bits()), (v * 16.) as i16, "{v}");
    }
}

#[test]
fn checked_frame_data_reports_negative_counts() {
    let mut v = vec![2u8];
    v.extend_from_slice(&(-1i32).to_be_bytes());
    assert!(AnmFrameData::create_checked(&mut ByteBuffer::from_vec(v)).is_none());
    let mut v = vec![3u8];
    v.extend_from_slice(&(-1i32).to_be_bytes());
    assert!(matches!(AnmFrameData::create_checked(&mut ByteBuffer::from_vec(v)), Some(Err(ReadError::TypeNotFound))));
    let mut v = vec![1u8];
    v.extend_from_slice(&2i32.to_be_bytes());
    v.extend_from_slice(&[5, 0xFB]);
    assert!(matches!(AnmFrameData::create_checked(&mut ByteBuffer::from_vec(v)), Some(Ok(DataContainer::I8(_)))));
}
