use vstd::prelude::*;

use crate::error::ParseError;

verus! {

/// Byte length of the file header.
pub const HEADER_SIZE: usize = 9;

/// The only file version this library reads.
pub const VERSION_1: u8 = 1;

/// Big-endian value of four bytes.
pub open spec fn be_u32(a: u8, b: u8, c: u8, d: u8) -> int {
    a as int * 0x1000000 + b as int * 0x10000 + c as int * 0x100 + d as int
}

/// Big-endian value of three bytes (a UI24 field).
pub open spec fn be_u24(a: u8, b: u8, c: u8) -> int {
    a as int * 0x10000 + b as int * 0x100 + c as int
}

/// FLV file header.
#[derive(Debug, Clone, Copy, PartialEq, Eq, Structural, PartialOrd, Ord, Hash)]
pub struct Header {
    /// File version (1 for FLV version 1).
    pub version: u8,
    /// Audio tags are present.
    pub audio_flag: bool,
    /// Video tags are present.
    pub video_flag: bool,
    /// Byte length of the header; 9 for version 1.
    pub data_offset: u32,
}

/// The type-flags byte: bit 2 for audio, bit 0 for video.
pub open spec fn flag_byte(audio: bool, video: bool) -> u8 {
    ((if audio { 4int } else { 0int }) + (if video { 1int } else { 0int })) as u8
}

/// The nine bytes that encode `h`; the data offset is always written as 9.
pub open spec fn header_bytes(h: Header) -> Seq<u8> {
    seq![0x46u8, 0x4Cu8, 0x56u8, h.version, flag_byte(h.audio_flag, h.video_flag), 0u8, 0u8, 0u8, 9u8]
}

/// What nine header bytes decode to: the first failing check in the order
/// signature, version, reserved flag bits, data offset.
pub open spec fn decode_header(b: Seq<u8>) -> Result<Header, ParseError>
    recommends
        b.len() == HEADER_SIZE,
{
    if !(b[0] == 0x46u8 && b[1] == 0x4Cu8 && b[2] == 0x56u8) {
        Err(ParseError::HeaderSignature(b[0], b[1], b[2]))
    } else if b[3] != VERSION_1 {
        Err(ParseError::HeaderVersion(b[3]))
    } else if b[4] & 0xFAu8 != 0 {
        Err(ParseError::HeaderTypeFlagsReserved(b[4] & 0xFAu8))
    } else if be_u32(b[5], b[6], b[7], b[8]) != HEADER_SIZE {
        Err(ParseError::HeaderDataOffset(be_u32(b[5], b[6], b[7], b[8]) as u32))
    } else {
        Ok(
            Header {
                version: b[3],
                audio_flag: b[4] & 4u8 != 0,
                video_flag: b[4] & 1u8 != 0,
                data_offset: HEADER_SIZE as u32,
            },
        )
    }
}

impl Header {
    /// A header that this library can write and read back unchanged.
    pub open spec fn valid(self) -> bool {
        self.version == VERSION_1 && self.data_offset == HEADER_SIZE
    }

    /// Decodes the nine header bytes, checking every field.
    pub fn try_from(value: &[u8; 9]) -> (r: Result<Header, ParseError>)
        ensures
            r == decode_header(value@),
    {
        let f = value[0];
        let l = value[1];
        let v = value[2];
        if !(f == 0x46u8 && l == 0x4Cu8 && v == 0x56u8) {
            return Err(ParseError::HeaderSignature(f, l, v));
        }
        let version = value[3];
        if version != VERSION_1 {
            return Err(ParseError::HeaderVersion(version));
        }
        let flag = value[4];
        let reserved_flag = flag & 0xFAu8;
        if reserved_flag != 0 {
            return Err(ParseError::HeaderTypeFlagsReserved(reserved_flag));
        }
        let audio_flag = flag & 4u8 != 0;
        let video_flag = flag & 1u8 != 0;
        let data_offset: u32 = (value[5] as u32) * 0x1000000 + (value[6] as u32) * 0x10000
            + (value[7] as u32) * 0x100 + value[8] as u32;
        if data_offset != HEADER_SIZE as u32 {
            return Err(ParseError::HeaderDataOffset(data_offset));
        }
        Ok(Header { version, audio_flag, video_flag, data_offset })
    }

    /// Encodes the header; the data offset field is always 9.
    pub fn to_bytes(self) -> (r: [u8; 9])
        ensures
            r@ == header_bytes(self),
    {
        let flag: u8 = (if self.audio_flag { 4u8 } else { 0u8 }) + (if self.video_flag { 1u8 } else { 0u8 });
        let r = [0x46u8, 0x4Cu8, 0x56u8, self.version, flag, 0u8, 0u8, 0u8, 9u8];
        assert(r@ =~= header_bytes(self));
        r
    }
}

/// Encoding a valid header and decoding the bytes gives the header back.
pub proof fn lemma_header_decode_encode(h: Header)
    requires
        h.valid(),
    ensures
        decode_header(header_bytes(h)) == Ok::<Header, ParseError>(h),
{
    let f = flag_byte(h.audio_flag, h.video_flag);
    if h.audio_flag && h.video_flag {
        assert(5u8 & 0xFAu8 == 0 && 5u8 & 4u8 != 0 && 5u8 & 1u8 != 0) by (bit_vector);
    } else if h.audio_flag {
        assert(4u8 & 0xFAu8 == 0 && 4u8 & 4u8 != 0 && 4u8 & 1u8 == 0) by (bit_vector);
    } else if h.video_flag {
        assert(1u8 & 0xFAu8 == 0 && 1u8 & 4u8 == 0 && 1u8 & 1u8 != 0) by (bit_vector);
    } else {
        assert(0u8 & 0xFAu8 == 0 && 0u8 & 4u8 == 0 && 0u8 & 1u8 == 0) by (bit_vector);
    }
}

/// Bytes that decode to a header are exactly the encoding of that header.
pub proof fn lemma_header_encode_decode(b: Seq<u8>)
    requires
        b.len() == HEADER_SIZE,
        decode_header(b) is Ok,
    ensures
        header_bytes(decode_header(b)->Ok_0) == b,
        decode_header(b)->Ok_0.valid(),
{
    let f = b[4];
    assert(f & 0xFAu8 == 0 ==> f == (if f & 4u8 != 0 { 4u8 } else { 0u8 }) + (if f & 1u8 != 0 { 1u8 } else { 0u8 })) by (bit_vector);
    assert(b[5] == 0 && b[6] == 0 && b[7] == 0 && b[8] == 9);
    assert(header_bytes(decode_header(b)->Ok_0) =~= b);
}

/// Header decoding reports the signature bytes whenever they are not "FLV",
/// whatever the other bytes hold.
pub proof fn lemma_header_bad_signature(b: Seq<u8>)
    requires
        b.len() == HEADER_SIZE,
        !(b[0] == 0x46u8 && b[1] == 0x4Cu8 && b[2] == 0x56u8),
    ensures
        decode_header(b) == Err::<Header, ParseError>(ParseError::HeaderSignature(b[0], b[1], b[2])),
{
}

/// Header decoding reports the data offset whenever it is not 9, even when the
/// signature, version and flags are valid.
pub proof fn lemma_header_bad_offset(b: Seq<u8>)
    requires
        b.len() == HEADER_SIZE,
        b[0] == 0x46u8 && b[1] == 0x4Cu8 && b[2] == 0x56u8,
        b[3] == VERSION_1,
        b[4] & 0xFAu8 == 0,
        be_u32(b[5], b[6], b[7], b[8]) != HEADER_SIZE,
    ensures
        decode_header(b) == Err::<Header, ParseError>(
            ParseError::HeaderDataOffset(be_u32(b[5], b[6], b[7], b[8]) as u32),
        ),
{
}

} // verus!
