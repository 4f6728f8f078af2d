use vstd::prelude::*;

use crate::header::{be_u24, be_u32};

verus! {

/// Byte length of a tag header.
pub const TAG_HEADER_SIZE: usize = 11;

/// Largest data size that the 24-bit field can hold.
pub const MAX_DATA_SIZE: usize = 0x00ffffff;

/// Kind of a tag; unknown type bytes are kept as `Reserved`.
#[derive(Debug, Clone, Copy, PartialEq, Eq, Structural, PartialOrd, Ord, Hash)]
pub enum TagType {
    Audio,
    Video,
    ScriptData,
    Reserved(u8),
}

/// The tag type that a type byte stands for.
pub open spec fn tag_type_of(b: u8) -> TagType {
    if b == 8 {
        TagType::Audio
    } else if b == 9 {
        TagType::Video
    } else if b == 18 {
        TagType::ScriptData
    } else {
        TagType::Reserved(b)
    }
}

/// The type byte written for a tag type.
pub open spec fn tag_type_byte(t: TagType) -> u8 {
    match t {
        TagType::Audio => 8,
        TagType::Video => 9,
        TagType::ScriptData => 18,
        TagType::Reserved(n) => n,
    }
}

impl TagType {
    /// A tag type whose byte decodes back to it: `Reserved` never holds 8, 9 or 18.
    pub open spec fn valid(self) -> bool {
        match self {
            TagType::Reserved(n) => n != 8 && n != 9 && n != 18,
            _ => true,
        }
    }

    /// Decodes a type byte; this never fails.
    pub fn from_byte(b: u8) -> (r: TagType)
        ensures
            r == tag_type_of(b),
    {
        match b {
            8 => TagType::Audio,
            9 => TagType::Video,
            18 => TagType::ScriptData,
            n => TagType::Reserved(n),
        }
    }

    /// The byte that encodes this tag type.
    pub fn to_byte(self) -> (r: u8)
        ensures
            r == tag_type_byte(self),
    {
        match self {
            TagType::Audio => 8,
            TagType::Video => 9,
            TagType::ScriptData => 18,
            TagType::Reserved(n) => n,
        }
    }
}

/// Header of one tag.
#[derive(Debug, Clone, Copy, PartialEq, Eq, Structural, PartialOrd, Ord, Hash)]
pub struct TagHeader {
    pub tag_type: TagType,
    /// Bytes after the tag header up to the next pre-tag-size marker.
    pub data_size: u32,
    /// Milliseconds; a 24-bit low part with an 8-bit high extension.
    pub timestamp: i32,
}

/// The 32 bits of a timestamp read as an unsigned number.
pub open spec fn timestamp_bits(ts: i32) -> int {
    if ts >= 0 {
        ts as int
    } else {
        ts as int + 0x1_0000_0000
    }
}

/// The signed value of 32 bits.
pub open spec fn signed_of_bits(u: int) -> int {
    if u < 0x8000_0000 {
        u
    } else {
        u - 0x1_0000_0000
    }
}

/// Byte `k` (0 = least significant) of a non-negative number.
pub open spec fn byte_of(u: int, k: nat) -> u8 {
    (if k == 0 {
        u % 0x100
    } else if k == 1 {
        u / 0x100 % 0x100
    } else if k == 2 {
        u / 0x10000 % 0x100
    } else {
        u / 0x1000000 % 0x100
    }) as u8
}

/// The eleven bytes that encode a tag header: type, UI24 data size, low 24
/// bits of the timestamp, its high byte, and a zero stream id.
pub open spec fn tag_header_bytes(h: TagHeader) -> Seq<u8> {
    let ts = timestamp_bits(h.timestamp);
    seq![
        tag_type_byte(h.tag_type),
        byte_of(h.data_size as int, 2),
        byte_of(h.data_size as int, 1),
        byte_of(h.data_size as int, 0),
        byte_of(ts, 2),
        byte_of(ts, 1),
        byte_of(ts, 0),
        byte_of(ts, 3),
        0u8,
        0u8,
        0u8,
    ]
}

/// What eleven tag header bytes decode to; the stream id is ignored.
pub open spec fn decode_tag_header(b: Seq<u8>) -> TagHeader
    recommends
        b.len() == TAG_HEADER_SIZE,
{
    TagHeader {
        tag_type: tag_type_of(b[0]),
        data_size: be_u24(b[1], b[2], b[3]) as u32,
        timestamp: signed_of_bits(be_u32(b[7], b[4], b[5], b[6])) as i32,
    }
}

impl TagHeader {
    /// A tag header that encodes and decodes back unchanged.
    pub open spec fn valid(self) -> bool {
        self.tag_type.valid() && self.data_size <= MAX_DATA_SIZE
    }

    /// Decodes the eleven tag header bytes; this never fails.
    pub fn from_bytes(value: &[u8; 11]) -> (r: TagHeader)
        ensures
            r == decode_tag_header(value@),
    {
        let tag_type = TagType::from_byte(value[0]);
        let data_size: u32 = (value[1] as u32) * 0x10000 + (value[2] as u32) * 0x100
            + value[3] as u32;
        let bits: u32 = (value[7] as u32) * 0x1000000 + (value[4] as u32) * 0x10000
            + (value[5] as u32) * 0x100 + value[6] as u32;
        let timestamp: i32 = if bits < 0x8000_0000 {
            bits as i32
        } else {
            ((bits - 0x8000_0000) as i32) - 0x4000_0000 - 0x4000_0000
        };
        TagHeader { tag_type, data_size, timestamp }
    }

    /// Encodes the tag header; only the low 24 bits of the data size are kept.
    pub fn to_bytes(self) -> (r: [u8; 11])
        ensures
            r@ == tag_header_bytes(self),
    {
        let ds = self.data_size;
        let bits: u32 = if self.timestamp >= 0 {
            self.timestamp as u32
        } else {
            ((self.timestamp + 0x4000_0000 + 0x4000_0000) as u32) + 0x8000_0000
        };
        let r = [
            self.tag_type.to_byte(),
            (ds / 0x10000 % 0x100) as u8,
            (ds / 0x100 % 0x100) as u8,
            (ds % 0x100) as u8,
            (bits / 0x10000 % 0x100) as u8,
            (bits / 0x100 % 0x100) as u8,
            (bits % 0x100) as u8,
            (bits / 0x1000000 % 0x100) as u8,
            0u8,
            0u8,
            0u8,
        ];
        assert(r@ =~= tag_header_bytes(self));
        r
    }
}

/// Four bytes taken from a 32-bit number read back as that number.
pub proof fn lemma_bytes_recompose(u: int)
    requires
        0 <= u < 0x1_0000_0000,
    ensures
        be_u32(byte_of(u, 3), byte_of(u, 2), byte_of(u, 1), byte_of(u, 0)) == u,
        u < 0x100_0000 ==> be_u24(byte_of(u, 2), byte_of(u, 1), byte_of(u, 0)) == u,
{
    let a = u / 0x100;
    let b = a / 0x100;
    let c = b / 0x100;
    assert(u == a * 0x100 + u % 0x100);
    assert(a == b * 0x100 + a % 0x100);
    assert(b == c * 0x100 + b % 0x100);
    assert(u / 0x10000 == b) by {
        vstd::arithmetic::div_mod::lemma_div_denominator(u, 0x100, 0x100);
    }
    assert(u / 0x1000000 == c) by {
        vstd::arithmetic::div_mod::lemma_div_denominator(u, 0x10000, 0x100);
    }
    assert(c < 0x100);
}

/// Encoding a valid tag header and decoding the bytes gives it back, for every
/// tag type, data size up to the 24-bit maximum, and timestamp.
pub proof fn lemma_tag_header_round_trip(h: TagHeader)
    requires
        h.valid(),
    ensures
        decode_tag_header(tag_header_bytes(h)) == h,
{
    let b = tag_header_bytes(h);
    let ts = timestamp_bits(h.timestamp);
    lemma_bytes_recompose(h.data_size as int);
    lemma_bytes_recompose(ts);
    assert(be_u24(b[1], b[2], b[3]) == h.data_size);
    assert(be_u32(b[7], b[4], b[5], b[6]) == ts);
    assert(signed_of_bits(ts) == h.timestamp as int);
}

} // verus!
