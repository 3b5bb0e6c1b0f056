use bytebuffer::ByteBuffer;
use wakfu_png::anm_instance::get_real_frame_index;
use wakfu_png::anm_shape::{AnmShape, AnmShapeKind};
use wakfu_png::error::ReadError;
use wakfu_png::anm_frame_data::{DataContainer, I16Container, I32Container, I8Container};
use wakfu_png::sprite_definition::{frame_data_can_process, ProcessOutcome, SpriteDefinition, SpriteDefinitionKind};

/// A full definition of two frames: shapes 5 and 6, then shape 9. Reading keeps no flag,
/// so a looping one is made by setting its loop flag afterwards.
fn full_definition(looping: bool) -> SpriteDefinition {
    let mut v = vec![0u8, 7, 0x80];
    v.extend_from_slice(&[0, 0, 0, 0, 0, 0, 0, 0]);
    v.extend_from_slice(&[0, 2]);
    v.extend_from_slice(&[0, 2, 0, 5, 0, 0, 6, 0, 0, 0, 0]);
    v.extend_from_slice(&[0, 1, 0, 9, 0, 0, 0, 0]);
    let mut b = ByteBuffer::from_vec(v);
    let mut def = SpriteDefinition::create_from(&None, &mut b, true).unwrap();
    def.load(&mut b);
    assert!(!def.get_sprite_def().is_loop());
    if looping {
        match &mut def.sprite_def {
            SpriteDefinitionKind::Anm(x) => x.sprite_def.flags = -128,
            _ => panic!("expected a full definition"),
        }
    }
    def
}

fn shape(id: i16) -> ProcessOutcome {
    ProcessOutcome::Shape(AnmShapeKind::Shape(AnmShape { id }))
}

#[test]
fn full_definition_walks_each_frame() {
    let mut def = full_definition(false);
    assert_eq!(def.get_frame_count(), 2);
    assert_eq!(def.get_sprite_def().id, 7);
    assert_eq!(def.begin_process_frame(0), 2);
    def.next_sprite();
    assert_eq!(def.process(), shape(5));
    def.next_sprite();
    assert_eq!(def.process(), shape(6));
    assert_eq!(def.begin_process_frame(1), 1);
    def.next_sprite();
    assert_eq!(def.process(), shape(9));
}

#[test]
fn real_frame_stays_within_the_definition() {
    let still = full_definition(false);
    let looping = full_definition(true);
    assert!(looping.get_sprite_def().is_loop());
    assert_eq!(get_real_frame_index(1, &still), 1);
    assert_eq!(get_real_frame_index(4, &still), 1);
    assert_eq!(get_real_frame_index(4, &looping), 0);
    assert_eq!(get_real_frame_index(5, &looping), 1);
    for f in 0..10 {
        let r = get_real_frame_index(f, &looping);
        assert!((0..2).contains(&r));
    }
}

#[test]
fn empty_definition_has_nothing() {
    let mut def = SpriteDefinition::default();
    assert_eq!(def.get_frame_count(), 0);
    assert_eq!(def.begin_process_frame(0), 0);
    assert_eq!(def.process(), ProcessOutcome::Nothing);
}

#[test]
fn definition_kinds_from_the_table() {
    let table = Some(wakfu_png::anm::AnmTransformDataTable::default());
    assert_eq!(SpriteDefinition::create_from(&table, &mut ByteBuffer::from_vec(vec![1]), false).unwrap_err(), ReadError::Unsupported);
    assert_eq!(SpriteDefinition::create_from(&table, &mut ByteBuffer::from_vec(vec![9]), false).unwrap_err(), ReadError::IndexNotFound);
    assert_eq!(SpriteDefinition::create_from(&table, &mut ByteBuffer::from_vec(vec![]), false).unwrap_err(), ReadError::Incomplete);
    assert!(SpriteDefinition::create_from(&table, &mut ByteBuffer::from_vec(vec![4]), false).is_ok());
}

#[test]
fn frame_checks_follow_the_definition() {
    let mut def = full_definition(false);
    assert!(def.can_begin_frame(0));
    assert!(def.can_begin_frame(1));
    assert!(!def.can_begin_frame(2));
    assert!(!def.can_begin_frame(-1));
    def.begin_process_frame(1);
    assert!(def.can_move_on());
    assert!(!def.can_process_current());
    def.next_sprite();
    assert!(def.can_process_current());
    def.next_sprite();
    assert!(!def.can_process_current());
    let empty = SpriteDefinition::default();
    assert!(empty.can_begin_frame(5));
    assert!(empty.can_process_current());
}

#[test]
fn frame_data_room_for_each_transform() {
    assert!(frame_data_can_process(&DataContainer::Empty));
    // type 3 reads a rotation and a translation after it
    assert!(frame_data_can_process(&DataContainer::I8(I8Container::new(vec![3, 1, 2]))));
    assert!(!frame_data_can_process(&DataContainer::I8(I8Container::new(vec![3, 1]))));
    // type 12 reads two color offsets
    assert!(frame_data_can_process(&DataContainer::I16(I16Container::new(vec![12, 0, 0]))));
    assert!(!frame_data_can_process(&DataContainer::I16(I16Container::new(vec![12, 0]))));
    // an unknown type reads nothing more
    assert!(frame_data_can_process(&DataContainer::I32(I32Container::new(vec![40]))));
    assert!(!frame_data_can_process(&DataContainer::I32(I32Container::new(vec![]))));
}
