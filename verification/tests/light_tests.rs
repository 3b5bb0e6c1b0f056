use wakfu_png::error::ReadError;
use wakfu_png::light::{chunk_coords, CellLightDef, MapLightChunk};

fn chunk_bytes(x: i16, y: i16, ambiances: &[i32], entries: &[(u16, u16)]) -> Vec<u8> {
    let mut v = Vec::new();
    v.extend_from_slice(&x.to_le_bytes());
    v.extend_from_slice(&y.to_le_bytes());
    v.extend_from_slice(&(ambiances.len() as u16).to_le_bytes());
    for a in ambiances {
        v.push(1);
        v.extend_from_slice(&a.to_le_bytes());
        v.extend_from_slice(&0i32.to_le_bytes());
        v.extend_from_slice(&0i32.to_le_bytes());
    }
    v.extend_from_slice(&1i16.to_le_bytes());
    v.extend_from_slice(&(entries.len() as i16).to_le_bytes());
    for (k, i) in entries {
        v.extend_from_slice(&k.to_le_bytes());
        v.extend_from_slice(&i.to_le_bytes());
    }
    v
}

#[test]
fn light_takes_the_ambiance_bytes() {
    let c = CellLightDef::new(0x7F12_3456, 9, 9, true);
    assert_eq!((c.red, c.green, c.blue), (0x56, 0x34, 0x12));
    let c = CellLightDef::new(-1, 0, 0, false);
    assert_eq!((c.red, c.green, c.blue), (0xFF, 0xFF, 0xFF));
}

#[test]
fn chunk_reads_corner_and_entries() {
    let bytes = chunk_bytes(2, -1, &[0x0000_00FF, 0x00FF_0000], &[(5, 1), (6, 0), (5, 0)]);
    let (c, n) = MapLightChunk::try_read(&bytes).unwrap();
    assert_eq!(n, bytes.len());
    assert_eq!((c.x, c.y), (36, -18));
    assert_eq!(c.layer_colors.len(), 2);
    assert_eq!(c.layer_colors[&5], CellLightDef { red: 0xFF, green: 0, blue: 0 });
    assert_eq!(c.layer_colors[&6].red, 0xFF);
}

#[test]
fn chunk_cut_short_is_incomplete() {
    let bytes = chunk_bytes(0, 0, &[1], &[(1, 0)]);
    assert_eq!(MapLightChunk::try_read(&bytes[..bytes.len() - 1]).unwrap_err(), ReadError::Incomplete);
    assert_eq!(MapLightChunk::try_read(&bytes[..10]).unwrap_err(), ReadError::Incomplete);
}

#[test]
fn negative_entry_count_reads_no_entry() {
    let mut bytes = chunk_bytes(0, 0, &[1], &[]);
    let len = bytes.len();
    bytes[len - 2..].copy_from_slice(&(-3i16).to_le_bytes());
    let (c, n) = MapLightChunk::try_read(&bytes).unwrap();
    assert_eq!(n, len);
    assert!(c.layer_colors.is_empty());
}

#[test]
fn light_is_found_by_cell_and_layer() {
    let (c, _) = MapLightChunk::try_read(&chunk_bytes(1, 1, &[0x10], &[(3 + 2 * 18 + 324, 0)])).unwrap();
    assert_eq!(c.get_hashcode(18 + 3, 18 + 2, 1), 3 + 2 * 18 + 324);
    assert_eq!(c.get_light_info(18 + 3, 18 + 2, 1).unwrap().red, 0x10);
    assert_eq!(c.get_light_info(18 + 3, 18 + 2, 0).unwrap_err(), ReadError::NotFound);
}

#[test]
fn keys_of_distinct_cells_differ() {
    let (c, _) = MapLightChunk::try_read(&chunk_bytes(0, 0, &[], &[])).unwrap();
    let mut seen = std::collections::HashSet::new();
    for layer in [0, 1, 201] {
        for y in 0..18 {
            for x in 0..18 {
                assert!(seen.insert(c.get_hashcode(x, y, layer)));
            }
        }
    }
}

#[test]
fn keys_wrap_at_sixteen_bits() {
    let (c, _) = MapLightChunk::try_read(&chunk_bytes(0, 0, &[], &[])).unwrap();
    assert_eq!(c.get_hashcode(0, 0, 203), ((203 * 324) % 65536) as u16);
    assert_eq!(c.get_hashcode(-1, 0, 0), u16::MAX);
}

#[test]
fn chunk_names_give_their_coordinates() {
    assert_eq!(chunk_coords(b"12_-7"), Ok((12, -7)));
    assert_eq!(chunk_coords(b"+3_0"), Ok((3, 0)));
    assert_eq!(chunk_coords(b"1_2_3"), Ok((1, 2)));
    assert_eq!(chunk_coords(b"-_5"), Err(ReadError::BadInput));
    assert_eq!(chunk_coords(b"4_"), Err(ReadError::BadInput));
    assert_eq!(chunk_coords(b"2147483648_1"), Err(ReadError::BadInput));
    assert_eq!(chunk_coords(b"-2147483648_1"), Ok((i32::MIN, 1)));
}

#[test]
fn checked_chunk_reading_reports_where_reading_stops() {
    assert!(MapLightChunk::read_checked(&chunk_bytes(1821, 0, &[], &[])).is_none());
    assert!(MapLightChunk::read_checked(&chunk_bytes(0, -1821, &[], &[])).is_none());
    assert!(MapLightChunk::read_checked(&chunk_bytes(1820, -1820, &[], &[])).unwrap().is_ok());
    assert!(MapLightChunk::read_checked(&chunk_bytes(0, 0, &[7], &[(3, 1)])).is_none());
    let bytes = chunk_bytes(0, 0, &[7], &[(3, 0)]);
    let (c, n) = MapLightChunk::read_checked(&bytes).unwrap().unwrap();
    assert_eq!((n, c.layer_colors[&3].red), (bytes.len(), 7));
    assert!(matches!(MapLightChunk::read_checked(&bytes[..3]), Some(Err(ReadError::Incomplete))));
}

#[test]
fn keys_fit_near_the_chunk() {
    let (c, _) = MapLightChunk::try_read(&chunk_bytes(1, 1, &[], &[])).unwrap();
    assert!(c.key_fits(20, 25, 3));
    assert!(!c.key_fits(i32::MIN, 18, 0));
    assert!(c.key_fits(i32::MAX, 18, 0));
    assert!(!c.key_fits(18, 18, i32::MAX / 10));
}
