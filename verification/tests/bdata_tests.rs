use std::io::{Cursor, Write};

use bytebuffer::ByteBuffer;
use wakfu_png::binary_data::{InteractiveElementModelBinaryData, TeleporterBinaryData};
use wakfu_png::binary_document::{BinaryDocument, Index, Unique};
use wakfu_png::random_byte_buffer_reader::RandomByteBufferReader;

/// Writes values the way the tables hide them: before each value the seed moves on by
/// `mult * position + add`, and the value is stored plus the seed.
struct Hider {
    data: Vec<u8>,
    start: usize,
    seed: i8,
    mult: i32,
    add: i32,
}

impl Hider {
    fn new(data: Vec<u8>, mult: i32, add: i32) -> Hider {
        let start = 0;
        Hider { data, start, seed: (mult ^ add) as i8, mult, add }
    }
    fn step(&mut self) {
        let pos = (self.data.len() - self.start) as i32;
        self.seed = self.seed.wrapping_add(self.mult.wrapping_mul(pos).wrapping_add(self.add) as i8);
    }
    fn put_byte(&mut self, v: i8) {
        self.step();
        self.data.push(v.wrapping_add(self.seed) as u8);
    }
    fn put_int(&mut self, v: i32) {
        self.step();
        self.data.extend_from_slice(&v.wrapping_add(self.seed as i32).to_le_bytes());
    }
    fn put_long(&mut self, v: i64) {
        self.step();
        self.data.extend_from_slice(&v.wrapping_add(self.seed as i64).to_le_bytes());
    }
    fn put_utf8(&mut self, s: &str) {
        self.put_int(s.len() as i32);
        self.data.extend_from_slice(s.as_bytes());
    }
}

fn le_buffer(v: Vec<u8>) -> ByteBuffer {
    let mut b = ByteBuffer::from_vec(v);
    b.set_endian(bytebuffer::Endian::LittleEndian);
    b
}

#[test]
fn reader_removes_the_moving_seed() {
    let mut h = Hider::new(Vec::new(), 3, 5);
    h.put_byte(9);
    h.put_byte(-7);
    h.put_int(123456);
    h.put_long(-9);
    let mut r = RandomByteBufferReader::load(le_buffer(h.data), 3, 5).unwrap();
    assert_eq!(r.seed, 6);
    assert_eq!(r.get_byte(), 9);
    assert_eq!(r.get_byte(), -7);
    assert_eq!(r.get_int(), 123456);
    assert_eq!(r.get_long(), -9);
    assert_eq!(r.get_buffer_rpos(), 14);
}

#[test]
fn reader_byte_formula() {
    // Seed 3 ^ 5 = 6, moved by 3 * 0 + 5 before the first byte: 20 - 11 = 9.
    let mut r = RandomByteBufferReader::load(ByteBuffer::from_vec(vec![20, 30, 1, 0]), 3, 5).unwrap();
    assert_eq!(r.get_byte(), 9);
    // Moved by 3 * 1 + 5: 30 - 19 = 11.
    assert_eq!(r.get_byte(), 11);
    // Big-endian 0x0100, less the seed 19 + 3 * 2 + 5 = 30.
    assert_eq!(r.get_short(), 256 - 30);
}

#[test]
fn reader_position_sets_cursor_and_seed() {
    let mut r = RandomByteBufferReader::load(ByteBuffer::from_vec(vec![20, 30, 40]), 2, 1).unwrap();
    r.position(2, 10);
    assert_eq!(r.seed, 10);
    // 10 + (2 * 2 + 1) = 15; 40 - 15 = 25.
    assert_eq!(r.get_byte(), 25);
    r.position(0, 0);
    assert_eq!(r.get_byte(), 19);
}

#[test]
fn reader_strings_and_arrays() {
    let mut h = Hider::new(Vec::new(), 7, -2);
    h.put_utf8("héllo");
    h.put_int(2);
    h.put_int(-1);
    h.put_int(40);
    h.put_byte(1);
    let mut r = RandomByteBufferReader::load(le_buffer(h.data), 7, -2).unwrap();
    assert_eq!(r.read_utf8(), "héllo".as_bytes().to_vec());
    assert_eq!(r.read_int_array(), vec![-1, 40]);
    assert!(r.read_boolean());
}

fn table(data_type: u32) -> Vec<u8> {
    // A version field of -756423 makes the version 0.
    let mut h = Hider::new((-756423i32).to_le_bytes().to_vec(), data_type as i32, 0);
    h.put_int(1);
    h.put_long(77);
    h.put_int(5);
    h.put_int(9);
    h.put_byte(-3);
    h.put_byte(1);
    h.put_byte(1);
    h.put_utf8("id");
    h.put_int(2);
    h.put_long(10);
    h.put_int(100);
    h.put_long(11);
    h.put_int(101);
    let mut data = h.data;
    let start = data.len();
    let mut r = Hider { data: Vec::new(), start: 0, seed: (data_type as i32 ^ 0) as i8, mult: data_type as i32, add: 0 };
    r.put_int(4242);
    data.extend_from_slice(&r.data);
    assert!(data.len() == start + 4);
    data
}

#[test]
fn document_reads_entries_indexes_and_records() {
    let mut doc = BinaryDocument::from_bytes(table(72), 72);
    assert_eq!(doc.entries.len(), 1);
    let e = &doc.entries[0];
    assert_eq!((e.id, e.position, e.size, e.seed), (77, 5, 9, -3));
    assert_eq!(doc.indexes.len(), 1);
    assert_eq!(doc.indexes[0].get_name(), &b"id".to_vec());
    assert_eq!(doc.indexes[0].hash.indexes.get(&10), Some(&100));
    assert_eq!(doc.indexes[0].hash.indexes.get(&11), Some(&101));
    assert_eq!(doc.buffer.get_int(), 4242);
}

#[test]
fn index_reads_its_pairs() {
    let mut h = Hider::new(Vec::new(), 1, 1);
    h.put_byte(0);
    h.put_utf8("name");
    h.put_int(1);
    h.put_long(-5);
    h.put_int(8);
    let mut r = RandomByteBufferReader::load(le_buffer(h.data), 1, 1).unwrap();
    let idx = Index::create_index(&mut r).unwrap();
    assert_eq!(idx.get_name(), &b"name".to_vec());
    assert_eq!(idx.hash.indexes.len(), 1);
    assert_eq!(idx.hash.indexes[&-5], 8);
    assert!(Unique::load(4).unwrap().indexes.is_empty());
}

#[test]
fn checked_reading_reports_tables_that_do_not_read() {
    let full = table(72);
    assert!(BinaryDocument::from_bytes_checked(full.clone(), 72).is_some());
    // Too short for the version, a version past i32::MAX, the entries cut short.
    assert!(BinaryDocument::from_bytes_checked(vec![1, 2, 3], 72).is_none());
    assert!(BinaryDocument::from_bytes_checked(i32::MAX.to_le_bytes().to_vec(), 72).is_none());
    assert!(BinaryDocument::from_bytes_checked(full[..10].to_vec(), 72).is_none());
    // A string that is not UTF-8, and a negative pair count.
    let mut h = Hider::new(Vec::new(), 1, 1);
    h.put_byte(0);
    h.put_int(1);
    h.data.push(0xFF);
    let mut r = RandomByteBufferReader::load(le_buffer(h.data), 1, 1).unwrap();
    assert!(Index::create_index_checked(&mut r).is_none());
    let mut h = Hider::new(Vec::new(), 1, 1);
    h.put_byte(0);
    h.put_utf8("n");
    h.put_int(-1);
    let mut r = RandomByteBufferReader::load(le_buffer(h.data), 1, 1).unwrap();
    assert!(Index::create_index_checked(&mut r).is_none());
    let mut r = RandomByteBufferReader::load(le_buffer(vec![1, 2]), 1, 1).unwrap();
    assert_eq!(r.try_get_int(), None);
}

#[test]
fn checked_records_report_records_cut_short() {
    // The record of the table holds a single i32, too little for a model or a teleporter.
    let mut doc = BinaryDocument::from_bytes(table(34), 34);
    assert!(InteractiveElementModelBinaryData::read_checked(&mut doc).is_none());
    let mut doc = BinaryDocument::from_bytes(table(72), 72);
    assert!(TeleporterBinaryData::read_checked(&mut doc).is_none());
}

#[test]
fn document_loads_from_the_first_entry_of_an_archive() {
    let mut w = zip::ZipWriter::new(Cursor::new(Vec::new()));
    w.start_file("72.bin", zip::write::FileOptions::default()).unwrap();
    w.write_all(&table(72)).unwrap();
    let archive = w.finish().unwrap().into_inner();
    let mut doc = BinaryDocument::load(&archive, 72).unwrap().unwrap();
    assert_eq!(doc.entries.len(), 1);
    assert_eq!(doc.entries[0].position, 5);
    assert_eq!(doc.indexes[0].get_name(), &b"id".to_vec());
    assert_eq!(doc.buffer.get_int(), 4242);
}
