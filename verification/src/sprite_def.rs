//! The header shared by every sprite definition: its id, flags and name.
use vstd::prelude::*;
use bytebuffer::ByteBuffer;
use crate::bytes::{find_byte, lemma_find_byte};
use crate::parse::{sp_i8, sp_i16, sp_i32, sp_cstr, dat, pos, le, bits_after, read_i8, read_i16, read_i32, read_cstr};
use crate::buffer::same_bytes;
use crate::utils::{java_hash, java_string_hashcode};

verus! {

/// The header of a sprite definition.
#[derive(Clone, Debug)]
pub struct SpriteDef {
    pub max_sprite_count: i32,
    pub id: i16,
    pub flags: i8,
    pub name: Vec<u8>,
    pub name_crc: i32,
    pub base_name_crc: i32,
    pub is_animation_node: bool,
}

pub struct SpriteDefView {
    pub max_sprite_count: i32,
    pub id: i16,
    pub flags: i8,
    pub name: Seq<u8>,
    pub name_crc: i32,
    pub base_name_crc: i32,
    pub is_animation_node: bool,
}

impl View for SpriteDef {
    type V = SpriteDefView;

    open spec fn view(&self) -> SpriteDefView {
        SpriteDefView {
            max_sprite_count: self.max_sprite_count,
            id: self.id,
            flags: self.flags,
            name: self.name@,
            name_crc: self.name_crc,
            base_name_crc: self.base_name_crc,
            is_animation_node: self.is_animation_node,
        }
    }
}

/// The header of a definition that has not been read: no sprite count (-1), everything
/// else zero or empty.
pub open spec fn empty_sprite_def() -> SpriteDefView {
    SpriteDefView {
        max_sprite_count: -1i32,
        id: 0,
        flags: 0,
        name: Seq::empty(),
        name_crc: 0,
        base_name_crc: 0,
        is_animation_node: false,
    }
}

/// The hash of the part of a name after its first `_`, or 0 for a name without one.
pub open spec fn base_name_hash(name: Seq<u8>) -> i32 {
    match find_byte(name, 0, 95) {
        Some(i) => java_hash(name.subrange(i + 1, name.len() as int)),
        None => 0,
    }
}

/// What the stored header holds: the id, and the name when the flags say there is one.
pub struct SpriteDefHeader {
    pub id: i16,
    pub name: Option<Seq<u8>>,
}

/// The stored header: the id as an `i16`, the flags as an `i8`, the name when flag `0x40`
/// is set, then two `i32` values that are skipped.
pub open spec fn sp_sprite_def_header(d: Seq<u8>, p: nat, le: bool) -> Option<(SpriteDefHeader, nat)> {
    match sp_i16(d, p, le) {
        Some((id, q1)) => match sp_i8(d, q1) {
            Some((flags, q2)) => {
                let named = (flags & 0x40) != 0;
                let name_part: Option<(Option<Seq<u8>>, nat)> = if named {
                    match sp_cstr(d, q2) {
                        Some((n, q3)) => Some((Some(n), q3)),
                        None => None,
                    }
                } else {
                    Some((None, q2))
                };
                match name_part {
                    Some((name, q3)) => match sp_i32(d, q3, le) {
                        Some((_a, q4)) => match sp_i32(d, q4, le) {
                            Some((_b, q5)) => Some((SpriteDefHeader { id, name }, q5)),
                            None => None,
                        },
                        None => None,
                    },
                    None => None,
                }
            },
            None => None,
        },
        None => None,
    }
}

/// A header after reading `h` into it: the id is replaced; with a name, the name and its
/// two hashes are replaced; without one, both hashes become 0 and the name stays. The
/// flags, the sprite count and the node flag are kept (the stored flags are read and
/// dropped).
pub open spec fn sprite_def_loaded(s: SpriteDefView, h: SpriteDefHeader) -> SpriteDefView {
    match h.name {
        Some(n) => SpriteDefView {
            id: h.id,
            name: n,
            name_crc: java_hash(n),
            base_name_crc: base_name_hash(n),
            ..s
        },
        None => SpriteDefView { id: h.id, name_crc: 0, base_name_crc: 0, ..s },
    }
}

/// Whether bit 7 of the flags is set.
pub open spec fn flags_loop(flags: i8) -> bool {
    (flags as u8 & 0x80) != 0
}

/// The hash of what follows the first `_` of `name`, or 0 when there is none.
pub fn base_name_hashcode(name: &Vec<u8>) -> (h: i32)
    ensures
        h == base_name_hash(name@),
{
    proof {
        lemma_find_byte(name@, 0, 95);
    }
    let mut i: usize = 0;
    while i < name.len()
        invariant
            i <= name@.len(),
            forall|k| 0 <= k < i ==> name@[k] != 95,
            find_byte(name@, 0, 95) matches Some(q) ==> 0 <= q < name@.len() && name@[q] == 95 && (
            forall|k| 0 <= k < q ==> name@[k] != 95),
            find_byte(name@, 0, 95) is None ==> forall|k| 0 <= k < name@.len() ==> name@[k] != 95,
        decreases name@.len() - i,
    {
        if name[i] == 95 {
            proof {
                let q = find_byte(name@, 0, 95);
                assert(q == Some(i as int)) by {
                    if q is None {
                        assert(name@[i as int] != 95);
                    } else {
                        let qq = q->0;
                        if qq < i {
                            assert(name@[qq] != 95);
                        } else if qq > i {
                            assert(name@[i as int] != 95);
                        }
                    }
                }
            }
            let mut rest: Vec<u8> = Vec::new();
            let mut j: usize = i + 1;
            while j < name.len()
                invariant
                    i < j <= name@.len(),
                    rest@ == name@.subrange(i + 1, j as int),
                decreases name@.len() - j,
            {
                rest.push(name[j]);
                proof {
                    assert(rest@ =~= name@.subrange(i + 1, j + 1));
                }
                j = j + 1;
            }
            return java_string_hashcode(&rest);
        }
        i = i + 1;
    }
    proof {
        if find_byte(name@, 0, 95) is Some {
            let q = find_byte(name@, 0, 95)->0;
            assert(name@[q] != 95);
        }
    }
    0
}

impl SpriteDef {
    pub fn new() -> (r: Self)
        ensures
            r@ == empty_sprite_def(),
    {
        SpriteDef {
            max_sprite_count: -1,
            id: 0,
            flags: 0,
            name: Vec::new(),
            name_crc: 0,
            base_name_crc: 0,
            is_animation_node: false,
        }
    }

    /// Reads the stored header into this one. The header must be
    /// there in full.
    pub fn load(&mut self, buffer: &mut ByteBuffer)
        requires
            sp_sprite_def_header(dat(*old(buffer)), pos(*old(buffer)), le(*old(buffer))) is Some,
        ensures
            same_bytes(*old(buffer), *final(buffer)),
            bits_after(*old(buffer), *final(buffer)),
            sp_sprite_def_header(dat(*old(buffer)), pos(*old(buffer)), le(*old(buffer))) matches Some(
                (h, q),
            ) && pos(*final(buffer)) == q && final(self)@ == sprite_def_loaded(old(self)@, h),
    {
        let _ = self.load_checked(buffer);
    }

    /// Reads the stored header like [`SpriteDef::load`], on every input; `false` where it
    /// is cut short.
    pub fn load_checked(&mut self, buffer: &mut ByteBuffer) -> (r: bool)
        ensures
            same_bytes(*old(buffer), *final(buffer)),
            match sp_sprite_def_header(dat(*old(buffer)), pos(*old(buffer)), le(*old(buffer))) {
                Some((h, q)) => r && pos(*final(buffer)) == q && final(self)@ == sprite_def_loaded(old(self)@, h)
                    && bits_after(*old(buffer), *final(buffer)),
                None => !r,
            },
    {
        let id = match read_i16(buffer) {
            Ok(v) => v,
            Err(_) => return false,
        };
        let flags = match read_i8(buffer) {
            Ok(v) => v,
            Err(_) => return false,
        };
        let name = if (flags & 0x40) != 0 {
            match read_cstr(buffer) {
                Ok(v) => Some(v),
                Err(_) => return false,
            }
        } else {
            None
        };
        match read_i32(buffer) {
            Ok(_) => {},
            Err(_) => return false,
        }
        match read_i32(buffer) {
            Ok(_) => {},
            Err(_) => return false,
        }
        self.id = id;
        match name {
            Some(name) => {
                self.name_crc = java_string_hashcode(&name);
                self.base_name_crc = base_name_hashcode(&name);
                self.name = name;
            },
            None => {
                self.base_name_crc = 0;
                self.name_crc = 0;
            },
        }
        true
    }

    /// Whether the animation loops: bit 7 of the flags.
    pub fn is_loop(&self) -> (r: bool)
        ensures
            r == flags_loop(self.flags),
    {
        (self.flags as u8 & 0x80) != 0
    }

    /// The custom color slot: the low six bits of the flags.
    pub fn get_color_index(&self) -> (r: i32)
        ensures
            r == (self.flags & 0x3F) as i32,
            0 <= r < 64,
    {
        let r = (self.flags & 0x3F) as i32;
        proof {
            let f = self.flags;
            assert(0 <= (f & 0x3F) < 64) by (bit_vector);
        }
        r
    }
}

} // verus!
