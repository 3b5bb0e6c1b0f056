use wakfu_png::environment::{
    DynamicElementDef, ElementCoord, Environment, EnvironmentChunk, InteractiveElement, ParticleDef,
    Sound,
};
use wakfu_png::error::ReadError;

fn particle_bytes(system_id: i32) -> Vec<u8> {
    let mut v = vec![2u8, 0xFE, 0x10, 0x00];
    v.extend_from_slice(&system_id.to_le_bytes());
    v.push(3);
    v.extend_from_slice(&1.5f32.to_bits().to_le_bytes());
    v.extend_from_slice(&[1, 0xFF, 2, 4]);
    v
}

fn interactive_bytes() -> Vec<u8> {
    let mut v = Vec::new();
    v.extend_from_slice(&42i64.to_le_bytes());
    v.extend_from_slice(&7i16.to_le_bytes());
    v.push(2);
    v.extend_from_slice(&100i32.to_le_bytes());
    v.extend_from_slice(&(-5i32).to_le_bytes());
    v.extend_from_slice(&1u16.to_le_bytes());
    v.push(0);
    v.push(1);
    v.extend_from_slice(&(-2i16).to_le_bytes());
    v
}

fn dynamic_bytes(base: &[u8], params: &[u8]) -> Vec<u8> {
    let mut v = vec![1u8, 2, 3, 0];
    v.extend_from_slice(&10i32.to_le_bytes());
    v.extend_from_slice(&20i32.to_le_bytes());
    v.extend_from_slice(&30i16.to_le_bytes());
    v.extend_from_slice(&[4, 0, 0xFB]);
    v.extend_from_slice(base);
    v.push(0);
    v.extend_from_slice(params);
    v.push(0);
    v
}

#[test]
fn coord_reads_signed_values() {
    let (c, n) = ElementCoord::try_read(&[1, 0xFF, 0x34, 0x12]).unwrap();
    assert_eq!((c.x, c.y, c.z, n), (1, -1, 0x1234, 4));
    assert_eq!(ElementCoord::try_read(&[1, 2, 3]).unwrap_err(), ReadError::Incomplete);
}

#[test]
fn particle_reads_all_fields() {
    let (p, n) = ParticleDef::try_read(&particle_bytes(-3)).unwrap();
    assert_eq!(n, 17);
    assert_eq!((p.coord.x, p.coord.y, p.coord.z), (2, -2, 16));
    assert_eq!((p.system_id, p.level), (-3, 3));
    assert_eq!(f32::from_bits(p.unknown), 1.5);
    assert_eq!((p.offset_x, p.offset_y, p.offset_z, p.lod), (1, -1, 2, 4));
    assert_eq!(ParticleDef::try_read(&particle_bytes(1)[..16]).unwrap_err(), ReadError::Incomplete);
}

#[test]
fn sound_reads_coord_and_id() {
    let (s, n) = Sound::try_read(&[0, 1, 2, 0, 0x78, 0x56, 0x34, 0x12]).unwrap();
    assert_eq!((s.coord.x, s.coord.y, s.coord.z, s.sound_id, n), (0, 1, 2, 0x12345678, 8));
    assert_eq!(Sound::try_read(&[0; 7]).unwrap_err(), ReadError::Incomplete);
}

#[test]
fn dynamic_element_reads_two_names() {
    let bytes = dynamic_bytes(b"walk", b"speed=2");
    let (d, n) = DynamicElementDef::try_read(&bytes).unwrap();
    assert_eq!(n, bytes.len());
    assert_eq!((d.coord.x, d.coord.y, d.coord.z), (1, 2, 3));
    assert_eq!((d.id, d.gfx_id, d.dynamic_type), (10, 20, 30));
    assert_eq!((d.direction, d.occluder, d.height), (4, 0, -5));
    assert_eq!(d.base_animation, b"walk".to_vec());
    assert_eq!(d.params, b"speed=2".to_vec());
}

#[test]
fn dynamic_element_without_end_of_name_is_incomplete() {
    let mut bytes = dynamic_bytes(b"walk", b"x");
    bytes.pop();
    assert_eq!(DynamicElementDef::try_read(&bytes).unwrap_err(), ReadError::Incomplete);
}

#[test]
fn dynamic_element_with_bad_utf8_is_bad_input() {
    let bytes = dynamic_bytes(&[0xFF, 0xFE], b"x");
    assert_eq!(DynamicElementDef::try_read(&bytes).unwrap_err(), ReadError::BadInput);
    let bytes = dynamic_bytes(b"ok", &[0xC3]);
    assert_eq!(DynamicElementDef::try_read(&bytes).unwrap_err(), ReadError::BadInput);
    let bytes = dynamic_bytes("é".as_bytes(), b"x");
    assert!(DynamicElementDef::try_read(&bytes).is_ok());
}

#[test]
fn interactive_element_reads_views_and_data() {
    let bytes = interactive_bytes();
    let (e, n) = InteractiveElement::try_read(&bytes).unwrap();
    assert_eq!(n, bytes.len());
    assert_eq!((e.id, e.interactive_type), (42, 7));
    assert_eq!(e.views, vec![100, -5]);
    assert_eq!(e.data.get_data().len(), 0);
    assert_eq!((e.client_only, e.land_mark_type), (1, -2));
}

#[test]
fn interactive_element_missing_tail_is_incomplete() {
    let mut bytes = interactive_bytes();
    bytes.truncate(bytes.len() - 1);
    assert_eq!(InteractiveElement::try_read(&bytes).unwrap_err(), ReadError::Incomplete);
}

#[test]
fn environment_reads_every_list() {
    let mut bytes = vec![9u8];
    bytes.extend_from_slice(&3i16.to_le_bytes());
    bytes.extend_from_slice(&(-4i16).to_le_bytes());
    bytes.push(1);
    bytes.extend_from_slice(&particle_bytes(77));
    bytes.push(1);
    bytes.extend_from_slice(&[0, 0, 0, 0, 5, 0, 0, 0]);
    bytes.push(2);
    bytes.extend_from_slice(&11i32.to_le_bytes());
    bytes.extend_from_slice(&12i32.to_le_bytes());
    bytes.push(3);
    bytes.extend_from_slice(&[7, 8, 9]);
    bytes.push(1);
    bytes.extend_from_slice(&interactive_bytes());
    bytes.push(1);
    bytes.extend_from_slice(&dynamic_bytes(b"a", b"b"));
    let (env, n) = Environment::try_read(&bytes).unwrap();
    assert_eq!(n, bytes.len());
    assert_eq!((env.x, env.y), (3, -4));
    assert_eq!(env.particle_data.len(), 1);
    assert_eq!(env.particle_data[0].system_id, 77);
    assert_eq!(env.sound_data[0].sound_id, 5);
    assert_eq!(env.ambiances_id, vec![11, 12]);
    assert_eq!(env.ambiances, vec![7, 8, 9]);
    assert_eq!(env.get_interactive_elements()[0].id, 42);
    assert_eq!(env.get_dynamic_elements()[0].base_animation, b"a".to_vec());
}

#[test]
fn environment_lists_end_where_the_data_ends() {
    // Two particle systems announced and one present: the list holds one, and the
    // reading goes on after it, where the count of sounds is missing.
    let mut bytes = vec![0u8, 0, 0, 0, 0, 2];
    bytes.extend_from_slice(&particle_bytes(1));
    assert_eq!(Environment::try_read(&bytes).unwrap_err(), ReadError::Incomplete);
    // A list whose items do not fit is empty, and the rest is read from where it began.
    let bytes = vec![0u8, 1, 0, 2, 0, 200, 0, 0, 0, 0, 0];
    let (env, n) = Environment::try_read(&bytes).unwrap();
    assert_eq!((env.x, env.y, n), (1, 2, 11));
    assert!(env.particle_data.is_empty() && env.sound_data.is_empty());
    assert!(env.get_interactive_elements().is_empty() && env.get_dynamic_elements().is_empty());
}

#[test]
fn environment_too_short_is_incomplete() {
    assert_eq!(Environment::try_read(&[0, 1, 2, 3, 4]).unwrap_err(), ReadError::Incomplete);
}

#[test]
fn environment_entries_are_named_around_one_underscore() {
    assert!(EnvironmentChunk::is_environment_entry("12_-3"));
    assert!(EnvironmentChunk::is_environment_entry("_"));
    assert!(EnvironmentChunk::is_environment_entry("-1_0"));
    assert!(EnvironmentChunk::is_environment_entry("٣_٤"));
    assert!(!EnvironmentChunk::is_environment_entry("12_3_4"));
    assert!(!EnvironmentChunk::is_environment_entry("a_1"));
    assert!(!EnvironmentChunk::is_environment_entry("123"));
    assert!(!EnvironmentChunk::is_environment_entry(""));
    assert!(!EnvironmentChunk::is_environment_entry("1x"));
}

fn interactive_with_data(data: &[u8]) -> Vec<u8> {
    let mut v = Vec::new();
    v.extend_from_slice(&42i64.to_le_bytes());
    v.extend_from_slice(&7i16.to_le_bytes());
    v.push(0);
    v.extend_from_slice(&(data.len() as u16).to_le_bytes());
    v.extend_from_slice(data);
    v.push(0);
    v.extend_from_slice(&0i16.to_le_bytes());
    v
}

#[test]
fn checked_reading_reports_unreadable_element_data() {
    // No part count, a negative part count, a global part cut short.
    assert!(InteractiveElement::read_checked(&interactive_with_data(&[])).is_none());
    assert!(InteractiveElement::read_checked(&interactive_with_data(&[0xFF])).is_none());
    assert!(InteractiveElement::read_checked(&interactive_with_data(&[1, 0, 0, 0, 0, 5, 1, 0])).is_none());
    let ok = interactive_with_data(&[1, 0, 0, 0, 0, 5, 0, 0]);
    match InteractiveElement::read_checked(&ok) {
        Some(Ok((e, n))) => assert_eq!((e.data.get_data().len(), n), (1, ok.len())),
        _ => panic!("expected an element"),
    }
    let mut env = vec![0u8, 0, 0, 0, 0, 0, 0, 0, 0, 1];
    env.extend_from_slice(&interactive_with_data(&[]));
    env.push(0);
    assert!(Environment::read_checked(&env).is_none());
    let mut env = vec![0u8, 0, 0, 0, 0, 0, 0, 0, 0, 1];
    env.extend_from_slice(&ok);
    env.push(0);
    assert!(matches!(Environment::read_checked(&env), Some(Ok(_))));
}
