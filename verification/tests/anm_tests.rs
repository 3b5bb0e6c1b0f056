use bytebuffer::ByteBuffer;
use wakfu_png::anm::{AnimHeader, AnmAnimationFileRecord, AnmImport, AnmShapeDefinition};
use wakfu_png::anm_action::AnmAction;
use wakfu_png::binar_serial_part::{BinarSerialParts, BinarSerialPartsEnum, GlobalDataPart};
use wakfu_png::error::ReadError;
use wakfu_png::interactive_element_data::InteractiveElementData;

fn le_buffer(v: Vec<u8>) -> ByteBuffer {
    let mut b = ByteBuffer::from_vec(v);
    b.set_endian(bytebuffer::Endian::LittleEndian);
    b
}

#[test]
fn header_skips_two_bytes() {
    let mut b = ByteBuffer::from_vec(vec![3, 9, 9, 25, 7]);
    let h = AnimHeader::read(&mut b).unwrap();
    assert_eq!((h.version_number, h.frame_rate), (3, 25));
    assert_eq!(b.get_rpos(), 4);
    let mut short = ByteBuffer::from_vec(vec![3, 9, 9]);
    assert_eq!(AnimHeader::read(&mut short).unwrap_err(), ReadError::Incomplete);
}

#[test]
fn record_hashes_its_name() {
    let mut v = b"abc\0".to_vec();
    v.extend_from_slice(&[0, 0, 0, 0, 0x01, 0x02]);
    let r = AnmAnimationFileRecord::read(&mut ByteBuffer::from_vec(v.clone())).unwrap();
    assert_eq!(r.name, b"abc".to_vec());
    assert_eq!(r.crc, 96354);
    assert_eq!(r.file_index, 0x0102);
    let r = AnmAnimationFileRecord::read(&mut le_buffer(v)).unwrap();
    assert_eq!(r.file_index, 0x0201);
}

#[test]
fn import_reads_id_name_and_hash() {
    let mut v = vec![0x00, 0x05];
    v.extend_from_slice(b"hello\0");
    v.extend_from_slice(&[1, 2, 3, 4]);
    let mut b = ByteBuffer::from_vec(v);
    let mut i = AnmImport::new();
    i.load(&mut b);
    assert_eq!((i.id, i.name.clone(), i.crc), (5, b"hello".to_vec(), 99162322));
    assert_eq!(b.get_rpos(), 12);
    let c = i.clone_import();
    assert_eq!((c.id, c.name, c.crc), (5, b"hello".to_vec(), 99162322));
}

#[test]
fn shape_definition_keeps_float_bits() {
    let mut v = Vec::new();
    for x in 1i16..=8 {
        v.extend_from_slice(&x.to_be_bytes());
    }
    v.extend_from_slice(&0.5f32.to_be_bytes());
    v.extend_from_slice(&(-2.0f32).to_be_bytes());
    let s = AnmShapeDefinition::read(&mut ByteBuffer::from_vec(v)).unwrap();
    assert_eq!((s.id, s.texture_index, s.top, s.left), (1, 2, 3, 4));
    assert_eq!((s.bottom, s.right, s.width, s.height), (5, 6, 7, 8));
    assert_eq!((f32::from_bits(s.offset_x), f32::from_bits(s.offset_y)), (0.5, -2.0));
}

#[test]
fn global_part_reads_actions() {
    let mut v = vec![2u8];
    v.extend_from_slice(&7i16.to_be_bytes());
    v.extend_from_slice(&70i32.to_be_bytes());
    v.extend_from_slice(&(-8i16).to_be_bytes());
    v.extend_from_slice(&80i32.to_be_bytes());
    let g = GlobalDataPart::unserialize(ByteBuffer::from_vec(v.clone()), 0);
    assert_eq!(g.actions.len(), 2);
    assert_eq!((g.actions[1].action_id, g.actions[1].script_id), (-8, 80));
    match BinarSerialParts::unserialize(0, ByteBuffer::from_vec(v), 0).unwrap() {
        BinarSerialPartsEnum::GlobalDataPart(p) => assert_eq!(p.actions[0].script_id, 70),
        _ => panic!("expected the global part"),
    }
}

#[test]
fn part_kinds_past_five_are_not_found() {
    assert_eq!(BinarSerialParts::unserialize(6, ByteBuffer::from_vec(vec![]), 0).unwrap_err(), ReadError::IndexNotFound);
    assert!(matches!(
        BinarSerialParts::unserialize(3, ByteBuffer::from_vec(vec![]), 0).unwrap(),
        BinarSerialPartsEnum::SynchronizationSpecificPart(_)
    ));
}

#[test]
fn element_data_reads_listed_parts() {
    // Two entries: a global part at offset 11 holding no action, and a part of kind 9,
    // which is skipped. Each part's bytes start one byte after its offset.
    let mut v = vec![2u8];
    v.push(0);
    v.extend_from_slice(&11i32.to_be_bytes());
    v.push(9);
    v.extend_from_slice(&13i32.to_be_bytes());
    v.extend_from_slice(&[0xEE, 0, 0xEE, 0xEE]);
    let d = InteractiveElementData::read(ByteBuffer::from_vec(v), 0).unwrap();
    assert_eq!(d.get_data().len(), 1);
    assert!(matches!(&d.get_data()[0], BinarSerialPartsEnum::GlobalDataPart(p) if p.actions.is_empty()));
}

#[test]
fn element_data_without_table_is_incomplete() {
    assert_eq!(InteractiveElementData::read(ByteBuffer::from_vec(vec![]), 0).unwrap_err(), ReadError::Incomplete);
    assert_eq!(InteractiveElementData::read(ByteBuffer::from_vec(vec![1, 0, 0]), 0).unwrap_err(), ReadError::Incomplete);
}

#[test]
fn checked_part_reading_reports_parts_cut_short() {
    assert!(BinarSerialParts::unserialize_checked(0, ByteBuffer::from_vec(vec![1, 0]), 0).is_none());
    assert!(BinarSerialParts::unserialize_checked(2, ByteBuffer::from_vec(vec![0, 0]), 0).is_none());
    assert!(matches!(
        BinarSerialParts::unserialize_checked(7, ByteBuffer::from_vec(vec![]), 0),
        Some(Err(ReadError::IndexNotFound))
    ));
    assert!(matches!(
        BinarSerialParts::unserialize_checked(0, ByteBuffer::from_vec(vec![0]), 0),
        Some(Ok(BinarSerialPartsEnum::GlobalDataPart(_)))
    ));
    assert!(InteractiveElementData::read_checked(ByteBuffer::from_vec(vec![0xFF]), 0).is_none());
    assert!(matches!(InteractiveElementData::read_checked(ByteBuffer::from_vec(vec![]), 0), Some(Err(ReadError::Incomplete))));
}

#[test]
fn checked_actions_report_actions_that_stop_reading() {
    // A random animation that is not optimized, and a negative parameter count.
    let mut b = ByteBuffer::from_vec(b"walk\0".to_vec());
    assert!(AnmAction::get_checked(4, 1, &mut b).is_none());
    let mut b = ByteBuffer::from_vec(b"#optimized\0".to_vec());
    assert!(matches!(AnmAction::get_checked(4, 1, &mut b), Some(Ok(_))));
    let mut b = ByteBuffer::from_vec(vec![]);
    assert!(AnmAction::get_checked(8, -1, &mut b).is_none());
    let mut b = ByteBuffer::from_vec(vec![]);
    assert!(matches!(AnmAction::get_checked(11, 0, &mut b), Some(Err(ReadError::IndexNotFound))));
}
