use bytebuffer::ByteBuffer;
use wakfu_png::interactive_anim::{is_flippable_animation, InteractiveAnim};

/// An optimized file without table holding one named definition with one empty frame.
fn one_definition_file(id: i16, name: &[u8]) -> Vec<u8> {
    let mut v = vec![0x0A, 0, 0, 30];
    // Index: no flags, no records.
    v.push(0);
    v.extend_from_slice(&0i16.to_be_bytes());
    // No texture, no atlas shapes.
    v.extend_from_slice(&0i16.to_be_bytes());
    v.extend_from_slice(&0i16.to_be_bytes());
    // One definition: its header (id, named flag, name, two skipped values), one frame
    // with no shape, no action and no copy.
    v.extend_from_slice(&1i16.to_be_bytes());
    v.extend_from_slice(&id.to_be_bytes());
    v.push(0x40);
    v.extend_from_slice(name);
    v.push(0);
    v.extend_from_slice(&[0; 8]);
    v.extend_from_slice(&1i16.to_be_bytes());
    v.extend_from_slice(&0i16.to_be_bytes());
    v.push(0);
    v.extend_from_slice(&0i16.to_be_bytes());
    // No import.
    v.extend_from_slice(&0i16.to_be_bytes());
    v
}

#[test]
fn read_registers_the_definition_by_id_and_hash() {
    let mut anm = InteractiveAnim::new();
    anm.read(ByteBuffer::from_vec(one_definition_file(7, b"a")));
    assert_eq!((anm.header.version_number, anm.header.frame_rate), (0x0A, 30));
    assert_eq!(anm.sprite_definitions.len(), 1);
    assert_eq!(anm.sprite_definitions_by_id.get(&7), Some(&0));
    assert_eq!(anm.sprite_definitions_by_crc.get(&97), Some(&0));
    let def = anm.get_sprite_definition_by_id(7).unwrap();
    assert_eq!(def.get_frame_count(), 1);
    assert_eq!(def.get_sprite_def().name, b"a".to_vec());
    assert!(anm.get_sprite_definition_by_crc(97).is_some());
    assert!(anm.get_sprite_definition_by_id(8).is_none());
}

#[test]
fn every_registered_position_names_a_definition() {
    let mut anm = InteractiveAnim::new();
    anm.read(ByteBuffer::from_vec(one_definition_file(3, b"x")));
    anm.read(ByteBuffer::from_vec(one_definition_file(3, b"y")));
    assert_eq!(anm.sprite_definitions.len(), 2);
    assert_eq!(anm.sprite_definitions_by_id.get(&3), Some(&1));
    for i in anm.sprite_definitions_by_id.values().chain(anm.sprite_definitions_by_crc.values()) {
        assert!(*i < anm.sprite_definitions.len());
    }
}

#[test]
fn a_file_without_body_flag_keeps_only_its_header() {
    let mut anm = InteractiveAnim::new();
    anm.read(ByteBuffer::from_vec(vec![0x01, 0, 0, 12, 0xFF]));
    assert_eq!((anm.header.version_number, anm.header.frame_rate), (1, 12));
    assert!(anm.sprite_definitions.is_empty());
}

#[test]
fn no_name_is_flippable() {
    assert!(!is_flippable_animation(&b"_Anim3".to_vec()));
    assert!(!is_flippable_animation(&b"3_Anim".to_vec()));
    assert!(!is_flippable_animation(&Vec::new()));
}

#[test]
fn checked_reading_reports_files_that_do_not_read() {
    let full = one_definition_file(7, b"a");
    let mut anm = InteractiveAnim::new();
    assert!(anm.read_checked(ByteBuffer::from_vec(full.clone())));
    assert_eq!(anm.sprite_definitions_by_id.get(&7), Some(&0));
    // Cut inside the definition's frame, then inside the import count.
    let mut anm = InteractiveAnim::new();
    assert!(!anm.read_checked(ByteBuffer::from_vec(full[..full.len() - 4].to_vec())));
    let mut anm = InteractiveAnim::new();
    assert!(!anm.read_checked(ByteBuffer::from_vec(full[..full.len() - 1].to_vec())));
    // A negative record count in the index.
    let mut bad = full.clone();
    bad[5..7].copy_from_slice(&(-1i16).to_be_bytes());
    let mut anm = InteractiveAnim::new();
    assert!(!anm.read_checked(ByteBuffer::from_vec(bad)));
}
