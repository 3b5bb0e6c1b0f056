//! The frame data of the compact sprite definitions: a flat array of 8, 16 or 32-bit
//! numbers read one after the other from a cursor.
use vstd::prelude::*;
use bytebuffer::ByteBuffer;
use crate::error::ReadError;
use crate::parse::{
    Parsed, sp_i8, sp_i32, sp_many, parsed_as, checked_as, dat, pos, le, i8_fn, i16_fn, i32_fn, read_i8,
    read_i32, read_i8s, read_i16s, read_i32s,
};

verus! {

/// The state of a container: where the next read happens, and the data.
pub struct ContainerView<T> {
    pub cur: i32,
    pub data: Seq<T>,
}

/// A container from which the next value can be read: the cursor lies within the data
/// and can still move one step.
pub open spec fn can_read<T>(c: ContainerView<T>) -> bool {
    0 <= c.cur < c.data.len() && c.cur < i32::MAX
}

/// Frame data held as `i8` values.
#[derive(Clone, Debug)]
pub struct I8Container {
    pub cur: i32,
    pub data: Vec<i8>,
}

/// Frame data held as `i16` values.
#[derive(Clone, Debug)]
pub struct I16Container {
    pub cur: i32,
    pub data: Vec<i16>,
}

/// Frame data held as `i32` values.
#[derive(Clone, Debug)]
pub struct I32Container {
    pub cur: i32,
    pub data: Vec<i32>,
}

impl View for I8Container {
    type V = ContainerView<i8>;

    open spec fn view(&self) -> ContainerView<i8> {
        ContainerView { cur: self.cur, data: self.data@ }
    }
}

impl View for I16Container {
    type V = ContainerView<i16>;

    open spec fn view(&self) -> ContainerView<i16> {
        ContainerView { cur: self.cur, data: self.data@ }
    }
}

impl View for I32Container {
    type V = ContainerView<i32>;

    open spec fn view(&self) -> ContainerView<i32> {
        ContainerView { cur: self.cur, data: self.data@ }
    }
}

impl I8Container {
    pub fn new(data: Vec<i8>) -> (r: Self)
        ensures
            r@ == (ContainerView { cur: 0, data: data@ }),
    {
        I8Container { cur: 0, data }
    }

    /// Moves the cursor to `offset`.
    pub fn begin(&mut self, offset: i32)
        ensures
            final(self)@ == (ContainerView { cur: offset, ..old(self)@ }),
    {
        self.cur = offset
    }

    /// The value at the cursor; the cursor moves to the next one.
    pub fn read(&mut self) -> (r: i32)
        requires
            can_read(old(self)@),
        ensures
            r == old(self)@.data[old(self)@.cur as int],
            final(self)@ == (ContainerView { cur: (old(self)@.cur + 1) as i32, ..old(self)@ }),
    {
        let result = self.data[self.cur as usize];
        self.cur += 1;
        result as i32
    }
}

impl I16Container {
    pub fn new(data: Vec<i16>) -> (r: Self)
        ensures
            r@ == (ContainerView { cur: 0, data: data@ }),
    {
        I16Container { cur: 0, data }
    }

    /// Moves the cursor to `offset`.
    pub fn begin(&mut self, offset: i32)
        ensures
            final(self)@ == (ContainerView { cur: offset, ..old(self)@ }),
    {
        self.cur = offset
    }

    /// The value at the cursor; the cursor moves to the next one.
    pub fn read(&mut self) -> (r: i32)
        requires
            can_read(old(self)@),
        ensures
            r == old(self)@.data[old(self)@.cur as int],
            final(self)@ == (ContainerView { cur: (old(self)@.cur + 1) as i32, ..old(self)@ }),
    {
        let result = self.data[self.cur as usize];
        self.cur += 1;
        result as i32
    }
}

impl I32Container {
    pub fn new(data: Vec<i32>) -> (r: Self)
        ensures
            r@ == (ContainerView { cur: 0, data: data@ }),
    {
        I32Container { cur: 0, data }
    }

    /// Moves the cursor to `offset`.
    pub fn begin(&mut self, offset: i32)
        ensures
            final(self)@ == (ContainerView { cur: offset, ..old(self)@ }),
    {
        self.cur = offset
    }

    /// The value at the cursor; the cursor moves to the next one.
    pub fn read(&mut self) -> (r: i32)
        requires
            can_read(old(self)@),
        ensures
            r == old(self)@.data[old(self)@.cur as int],
            final(self)@ == (ContainerView { cur: (old(self)@.cur + 1) as i32, ..old(self)@ }),
    {
        let result = self.data[self.cur as usize];
        self.cur += 1;
        result
    }
}

/// Frame data of one of the three widths, or none.
#[derive(Clone, Debug)]
pub enum DataContainer {
    Empty,
    I8(I8Container),
    I16(I16Container),
    I32(I32Container),
}

pub enum DataContainerView {
    Empty,
    I8(ContainerView<i8>),
    I16(ContainerView<i16>),
    I32(ContainerView<i32>),
}

impl View for DataContainer {
    type V = DataContainerView;

    open spec fn view(&self) -> DataContainerView {
        match self {
            DataContainer::Empty => DataContainerView::Empty,
            DataContainer::I8(c) => DataContainerView::I8(c@),
            DataContainer::I16(c) => DataContainerView::I16(c@),
            DataContainer::I32(c) => DataContainerView::I32(c@),
        }
    }
}

/// Whether the next value can be read (always, for no data).
pub open spec fn data_can_read(c: DataContainerView) -> bool {
    match c {
        DataContainerView::Empty => true,
        DataContainerView::I8(x) => can_read(x),
        DataContainerView::I16(x) => can_read(x),
        DataContainerView::I32(x) => can_read(x),
    }
}

/// The next value (0 for no data).
pub open spec fn data_next(c: DataContainerView) -> i32 {
    match c {
        DataContainerView::Empty => 0,
        DataContainerView::I8(x) => x.data[x.cur as int] as i32,
        DataContainerView::I16(x) => x.data[x.cur as int] as i32,
        DataContainerView::I32(x) => x.data[x.cur as int],
    }
}

/// The data after a read: the cursor one step further (unchanged for no data).
pub open spec fn data_after_read(c: DataContainerView) -> DataContainerView {
    match c {
        DataContainerView::Empty => DataContainerView::Empty,
        DataContainerView::I8(x) => DataContainerView::I8(
            ContainerView { cur: (x.cur + 1) as i32, ..x },
        ),
        DataContainerView::I16(x) => DataContainerView::I16(
            ContainerView { cur: (x.cur + 1) as i32, ..x },
        ),
        DataContainerView::I32(x) => DataContainerView::I32(
            ContainerView { cur: (x.cur + 1) as i32, ..x },
        ),
    }
}

/// The data with its cursor at `offset` (unchanged for no data).
pub open spec fn data_begin(c: DataContainerView, offset: i32) -> DataContainerView {
    match c {
        DataContainerView::Empty => DataContainerView::Empty,
        DataContainerView::I8(x) => DataContainerView::I8(ContainerView { cur: offset, ..x }),
        DataContainerView::I16(x) => DataContainerView::I16(ContainerView { cur: offset, ..x }),
        DataContainerView::I32(x) => DataContainerView::I32(ContainerView { cur: offset, ..x }),
    }
}

impl DataContainer {
    /// The value at the cursor, which then moves to the next one; 0 for no data.
    pub fn read(&mut self) -> (r: i32)
        requires
            data_can_read(old(self)@),
        ensures
            r == data_next(old(self)@),
            final(self)@ == data_after_read(old(self)@),
    {
        match self {
            DataContainer::I8(e) => e.read(),
            DataContainer::I16(e) => e.read(),
            DataContainer::I32(e) => e.read(),
            _ => 0,
        }
    }

    /// Moves the cursor to `offset`.
    pub fn begin(&mut self, offset: i32)
        ensures
            final(self)@ == data_begin(old(self)@, offset),
    {
        match self {
            DataContainer::I8(e) => e.begin(offset),
            DataContainer::I16(e) => e.begin(offset),
            DataContainer::I32(e) => e.begin(offset),
            _ => {},
        }
    }
}

/// Reads frame data.
pub struct AnmFrameData;

/// Frame data: its element width as an `i8` (1, 2 or 4 bytes), its number of elements as
/// an `i32`, then the elements. Another width fails with `TypeNotFound`; a negative count
/// of a known width panics (room would be reserved for that many elements).
pub open spec fn sp_frame_data(d: Seq<u8>, p: nat, le: bool) -> Parsed<DataContainerView> {
    match sp_i8(d, p) {
        None => Parsed::Fails(ReadError::Incomplete),
        Some((data_type, q)) => match sp_i32(d, q, le) {
            None => Parsed::Fails(ReadError::Incomplete),
            Some((size, q2)) => if data_type != 1 && data_type != 2 && data_type != 4 {
                Parsed::Fails(ReadError::TypeNotFound)
            } else if size < 0 {
                Parsed::Panics
            } else if data_type == 1 {
                match sp_many(size as nat, q2, i8_fn(d)) {
                    Some((v, q3)) => Parsed::Done(
                        DataContainerView::I8(ContainerView { cur: 0, data: v }),
                        q3,
                    ),
                    None => Parsed::Fails(ReadError::Incomplete),
                }
            } else if data_type == 2 {
                match sp_many(size as nat, q2, i16_fn(d, le)) {
                    Some((v, q3)) => Parsed::Done(
                        DataContainerView::I16(ContainerView { cur: 0, data: v }),
                        q3,
                    ),
                    None => Parsed::Fails(ReadError::Incomplete),
                }
            } else {
                match sp_many(size as nat, q2, i32_fn(d, le)) {
                    Some((v, q3)) => Parsed::Done(
                        DataContainerView::I32(ContainerView { cur: 0, data: v }),
                        q3,
                    ),
                    None => Parsed::Fails(ReadError::Incomplete),
                }
            },
        },
    }
}

impl AnmFrameData {
    pub fn create(buffer: &mut ByteBuffer) -> (r: Result<DataContainer, ReadError>)
        requires
            !(sp_frame_data(dat(*old(buffer)), pos(*old(buffer)), le(*old(buffer))) is Panics),
        ensures
            parsed_as(*old(buffer), *final(buffer), r, sp_frame_data(dat(*old(buffer)), pos(*old(buffer)), le(*old(buffer)))),
    {
        match Self::create_checked(buffer) {
            Some(r) => r,
            None => Err(ReadError::BadInput),
        }
    }

    /// Reads frame data like [`AnmFrameData::create`], on every input: `None` where
    /// [`sp_frame_data`] panics.
    pub fn create_checked(buffer: &mut ByteBuffer) -> (r: Option<Result<DataContainer, ReadError>>)
        ensures
            checked_as(*old(buffer), *final(buffer), r, sp_frame_data(dat(*old(buffer)), pos(*old(buffer)), le(*old(buffer)))),
    {
        let data_type = match read_i8(buffer) {
            Ok(v) => v,
            Err(e) => return Some(Err(e)),
        };
        let size = match read_i32(buffer) {
            Ok(v) => v,
            Err(e) => return Some(Err(e)),
        };
        if data_type != 1 && data_type != 2 && data_type != 4 {
            return Some(Err(ReadError::TypeNotFound));
        }
        if size < 0 {
            return None;
        }
        match data_type {
            1 => match read_i8s(buffer, size as usize) {
                Ok(data) => Some(Ok(DataContainer::I8(I8Container::new(data)))),
                Err(e) => Some(Err(e)),
            },
            2 => match read_i16s(buffer, size as usize) {
                Ok(data) => Some(Ok(DataContainer::I16(I16Container::new(data)))),
                Err(e) => Some(Err(e)),
            },
            _ => match read_i32s(buffer, size as usize) {
                Ok(data) => Some(Ok(DataContainer::I32(I32Container::new(data)))),
                Err(e) => Some(Err(e)),
            },
        }
    }
}

} // verus!
