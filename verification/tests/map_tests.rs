use wakfu_png::anm_instance::get_flipped_anim_name;
use wakfu_png::error::ReadError;
use wakfu_png::groups::Groups;
use wakfu_png::imageops::{blend_case, blend_modes_supported, overlay_bounds_ext, BlendCase, BlendModes};
use wakfu_png::layer_manager::LayerManager;
use wakfu_png::sprite::{AnmSprite, LayerOrder, MapSprite};

fn sprite(cell_x: i32, cell_y: i32, altitude_order: u8) -> MapSprite {
    MapSprite {
        cell_x,
        cell_y,
        cell_z: 0,
        height: 0,
        altitude_order,
        tag: 0,
        element_id: 0,
        group_key: 0,
        group_id: 0,
        layer: 0,
        color: [0; 4],
        anm_sprite: None,
        dyn_sprite: None,
        particle_sprite: None,
    }
}

#[test]
fn sprite_hash_places_each_part() {
    let h = sprite(1, 2, 3).hashcode(5);
    assert_eq!(h, (8194i64 << 34) | (8193i64 << 19) | (3 << 6) | 5);
    assert_eq!((h >> 34) & 0x3FFF, 8194);
    assert_eq!((h >> 19) & 0x3FFF, 8193);
    assert_eq!((h >> 6) & 0x1FFF, 3);
    assert_eq!(h & 0x3F, 5);
    let h = sprite(-8193, -8192, 255).hashcode(63);
    assert_eq!((h >> 34) & 0x3FFF, 0);
    assert_eq!((h >> 19) & 0x3FFF, 0x3FFF);
    assert_eq!((h >> 6) & 0x1FFF, 255);
    assert_eq!(h & 0x3F, 63);
}

#[test]
fn layers_are_drawn_in_order() {
    let order = [LayerOrder::Ground, LayerOrder::InteractiveElement, LayerOrder::DynamicElement, LayerOrder::Particle];
    let idx: Vec<u8> = order.iter().map(|l| l.get_index()).collect();
    assert_eq!(idx, vec![0, 1, 2, 3]);
    assert_eq!(AnmSprite::new(4, -1, 2, 3), AnmSprite { gfx_id: 4, direction: -1, activation_pattern: 2, state: 3 });
}

fn groups_bytes() -> Vec<u8> {
    let mut v = Vec::new();
    v.extend_from_slice(&2u16.to_le_bytes());
    v.extend_from_slice(&1u16.to_le_bytes());
    v.extend_from_slice(&1i16.to_le_bytes());
    v.extend_from_slice(&2u16.to_le_bytes());
    v.extend_from_slice(&(-2i16).to_le_bytes());
    v.extend_from_slice(&1i16.to_le_bytes());
    v
}

#[test]
fn groups_set_the_flags_of_their_entries() {
    let (g, n) = Groups::try_read(&groups_bytes()).unwrap();
    assert_eq!(n, 12);
    assert_eq!(g.layer_count, 3);
    let mut flags: Vec<u32> = g.layers.iter().copied().collect();
    flags.sort();
    assert_eq!(flags, vec![4, 5]);
}

#[test]
fn visibility_ignores_signs_away_from_layer_zero() {
    let (g, _) = Groups::try_read(&groups_bytes()).unwrap();
    for (from, layer) in [(1, 2), (1, 1), (1, 0), (2, 2)] {
        let v = g.is_layer_visible(from, layer);
        assert_eq!(v, g.is_layer_visible(from, -layer));
        assert_eq!(v, g.is_layer_visible(-from, layer));
    }
    assert!(g.is_layer_visible(1, 2));
    assert!(!g.is_layer_visible(1, 0));
    assert!(g.is_layer_visible(0, -7));
    assert!(!g.is_layer_visible(0, 1));
}

#[test]
fn groups_cut_short() {
    assert_eq!(Groups::try_read(&[1]).unwrap_err(), ReadError::Incomplete);
    let bytes = groups_bytes();
    assert_eq!(Groups::try_read(&bytes[..6]).unwrap_err(), ReadError::Incomplete);
    let (g, n) = Groups::try_read(&bytes[..10]).unwrap();
    assert_eq!((n, g.layers.len()), (10, 1));
}

#[test]
fn blend_mode_numbers() {
    assert_eq!(BlendModes::from_index(770).unwrap(), BlendModes::SrcAlpha);
    assert_eq!(BlendModes::from_index(1).unwrap(), BlendModes::One);
    assert_eq!(BlendModes::from_index(2).unwrap_err(), ReadError::BlendModeNotFound);
    assert!(blend_modes_supported(&BlendModes::SrcAlpha, &BlendModes::InvSrcAlpha));
    assert!(!blend_modes_supported(&BlendModes::Zero, &BlendModes::InvSrcAlpha));
    assert_eq!(blend_case(0), BlendCase::Keep);
    assert_eq!(blend_case(255), BlendCase::Replace);
    assert_eq!(blend_case(128), BlendCase::Mix);
}

#[test]
fn overlay_stays_within_both_images() {
    assert_eq!(overlay_bounds_ext((10, 10), (4, 4), 8, -2), (8, 0, 0, 2, 2, 2));
    assert_eq!(overlay_bounds_ext((10, 10), (4, 4), 11, 0), (0, 0, 0, 0, 0, 0));
    assert_eq!(overlay_bounds_ext((10, 10), (4, 4), i64::MIN, 0), (0, 0, 0, 0, 0, 0));
    for (x, y) in [(-3i64, -3i64), (0, 0), (9, 9), (-1, 7), (i64::MAX, 1)] {
        let (ox, oy, tx, ty, w, h) = overlay_bounds_ext((10, 10), (4, 4), x, y);
        assert!(ox + w <= 10 && oy + h <= 10 && tx + w <= 4 && ty + h <= 4);
    }
}

#[test]
fn flipped_names_take_the_mirrored_direction() {
    assert_eq!(get_flipped_anim_name(true, &b"4_walk".to_vec()), b"0_walk".to_vec());
    assert_eq!(get_flipped_anim_name(true, &b"3x".to_vec()), b"1x".to_vec());
    assert_eq!(get_flipped_anim_name(true, &b"7".to_vec()), b"5".to_vec());
    assert_eq!(get_flipped_anim_name(true, &b"2a".to_vec()), b"2a".to_vec());
    assert_eq!(get_flipped_anim_name(false, &b"4a".to_vec()), b"4a".to_vec());
    let once = get_flipped_anim_name(true, &b"4_run".to_vec());
    assert_eq!(get_flipped_anim_name(true, &once), once);
}

#[test]
fn outdoor_layers_are_the_negative_keys_the_floor_sees() {
    let mut v = Vec::new();
    v.extend_from_slice(&2u16.to_le_bytes());
    v.extend_from_slice(&1u16.to_le_bytes());
    v.extend_from_slice(&2i16.to_le_bytes());
    v.extend_from_slice(&1u16.to_le_bytes());
    v.extend_from_slice(&(-1i16).to_le_bytes());
    let (g, _) = Groups::try_read(&v).unwrap();
    let mut a = sprite(0, 0, 0);
    a.group_id = 1;
    a.group_key = 2;
    let mut b = sprite(1, 0, 0);
    b.group_id = 1;
    b.group_key = -1;
    let mut c = sprite(2, 0, 0);
    c.group_id = 1;
    c.group_key = -1;
    let sprites = vec![a, b, c];
    assert_eq!(LayerManager::get_map_groups(&sprites), vec![1]);
    let layers = LayerManager::get_outdoor_visible_layers(&sprites, &g, &vec![false, false, false]);
    assert_eq!(layers, vec![-1]);
    // With every cell blocked no layer counts, the floor stays layer 0, and layer 0 sees
    // every layer below it.
    let layers = LayerManager::get_outdoor_visible_layers(&sprites, &g, &vec![true, true, true]);
    assert_eq!(layers, vec![-1]);
}

#[test]
fn checked_groups_reading_reports_where_reading_stops() {
    let mut bytes = groups_bytes();
    bytes[0..2].copy_from_slice(&65535u16.to_le_bytes());
    assert!(Groups::read_checked(&bytes).is_none());
    let mut bytes = groups_bytes();
    bytes[10..12].copy_from_slice(&i16::MIN.to_le_bytes());
    assert!(Groups::read_checked(&bytes).is_none());
    let (g, n) = Groups::read_checked(&groups_bytes()).unwrap().unwrap();
    assert_eq!((n, g.layer_count), (12, 3));
    assert!(matches!(Groups::read_checked(&[1]), Some(Err(ReadError::Incomplete))));
}
