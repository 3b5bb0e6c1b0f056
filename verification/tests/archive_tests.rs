use std::io::{Cursor, Write};

use zip::write::{FileOptions, ZipWriter};
use wakfu_png::archive::AssetArchive;
use wakfu_png::binary_document::BinaryDocument;
use wakfu_png::environment::EnvironmentChunk;
use wakfu_png::error::{LoadError, ReadError};
use wakfu_png::groups::Groups;
use wakfu_png::light::load_light_chunks;

fn zip_of(entries: &[(&str, &[u8])]) -> Vec<u8> {
    let mut w = ZipWriter::new(Cursor::new(Vec::new()));
    for (name, data) in entries {
        w.start_file(*name, FileOptions::default()).unwrap();
        w.write_all(data).unwrap();
    }
    w.finish().unwrap().into_inner()
}

fn groups_bytes() -> Vec<u8> {
    let mut v = Vec::new();
    v.extend_from_slice(&2u16.to_le_bytes());
    v.extend_from_slice(&1u16.to_le_bytes());
    v.extend_from_slice(&1i16.to_le_bytes());
    v.extend_from_slice(&2u16.to_le_bytes());
    v.extend_from_slice(&(-2i16).to_le_bytes());
    v.extend_from_slice(&1i16.to_le_bytes());
    v
}

/// An environment at (1, 2) with every list empty.
fn empty_environment() -> Vec<u8> {
    vec![0u8, 1, 0, 2, 0, 0, 0, 0, 0, 0, 0]
}

/// A light chunk at (x, y) without ambiances or entries.
fn light_chunk(x: i16, y: i16) -> Vec<u8> {
    let mut v = Vec::new();
    v.extend_from_slice(&x.to_le_bytes());
    v.extend_from_slice(&y.to_le_bytes());
    v.extend_from_slice(&0u16.to_le_bytes());
    v.extend_from_slice(&1i16.to_le_bytes());
    v.extend_from_slice(&0i16.to_le_bytes());
    v
}

#[test]
fn groups_come_from_their_entry() {
    let archive = zip_of(&[("readme.txt", b"hello"), ("groups.lib", &groups_bytes())]);
    let g = Groups::load(&archive).unwrap().unwrap();
    assert_eq!(g.layer_count, 3);
    let mut flags: Vec<u32> = g.layers.iter().copied().collect();
    flags.sort();
    assert_eq!(flags, vec![4, 5]);
}

#[test]
fn groups_errors() {
    let archive = zip_of(&[("other.lib", &groups_bytes())]);
    assert!(matches!(Groups::load(&archive), Some(Err(LoadError::Missing))));
    assert!(matches!(Groups::load(b"not a zip"), Some(Err(LoadError::Unzip))));
    let archive = zip_of(&[("groups.lib", &[1])]);
    assert!(matches!(Groups::load(&archive), Some(Err(LoadError::Read(ReadError::Incomplete)))));
    let archive = zip_of(&[("groups.lib", &[0xFF, 0xFF, 0, 0])]);
    assert!(Groups::load(&archive).is_none());
}

#[test]
fn environments_come_from_the_chunk_entries() {
    let archive = zip_of(&[("0_0", &empty_environment()), ("map.txt", b"x"), ("-1_3", &empty_environment())]);
    let chunks = EnvironmentChunk::load(&archive).unwrap().unwrap();
    assert_eq!(chunks.get_chunks().len(), 2);
    assert_eq!((chunks.chunks[0].x, chunks.chunks[0].y), (1, 2));
    let empty = zip_of(&[("map.txt", b"x")]);
    assert!(EnvironmentChunk::load(&empty).unwrap().unwrap().chunks.is_empty());
    let bad = zip_of(&[("0_0", &[0, 1])]);
    assert!(matches!(EnvironmentChunk::load(&bad), Some(Err(LoadError::Read(ReadError::Incomplete)))));
    assert!(matches!(EnvironmentChunk::load(&[1, 2, 3]), Some(Err(LoadError::Unzip))));
}

#[test]
fn light_chunks_take_their_coordinates_from_the_name() {
    let archive = zip_of(&[("2_-1", &light_chunk(2, -1)), ("info", b"x"), ("0_5", &light_chunk(0, 5))]);
    let chunks = load_light_chunks(&archive).unwrap().unwrap();
    assert_eq!(chunks.len(), 2);
    assert_eq!((chunks[0].0, chunks[0].1), (2, -1));
    assert_eq!((chunks[0].2.x, chunks[0].2.y), (36, -18));
    assert_eq!((chunks[1].0, chunks[1].1), (0, 5));
    let cut = zip_of(&[("2_-1", &light_chunk(2, -1)[..3])]);
    assert!(matches!(load_light_chunks(&cut), Some(Err(LoadError::Read(ReadError::Incomplete)))));
    assert!(matches!(load_light_chunks(b"nope"), Some(Err(LoadError::Unzip))));
}

#[test]
fn binary_document_needs_a_zip_and_a_header() {
    assert!(matches!(BinaryDocument::load(b"not a zip", 72), Some(Err(LoadError::Unzip))));
    let archive = zip_of(&[("data.bin", &[1, 2, 3])]);
    assert!(BinaryDocument::load(&archive, 72).is_none());
}

#[test]
fn asset_entries_are_found_by_name() {
    let archive = zip_of(&[("gfx/1.tgam", b"abc"), ("Atlas/a.png", b"")]);
    let mut assets = AssetArchive::open(archive).unwrap();
    assert_eq!(assets.entry("gfx/1.tgam"), Some(Some(b"abc".to_vec())));
    assert_eq!(assets.entry("Atlas/a.png"), Some(Some(vec![])));
    assert_eq!(assets.entry("gfx/2.tgam"), None);
    assert_eq!(assets.entry("gfx/1.tgam"), Some(Some(b"abc".to_vec())));
    assert!(AssetArchive::open(b"not a zip".to_vec()).is_none());
}
