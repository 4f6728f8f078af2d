use vstd::prelude::*;

verus! {

/// Why a fixed-layout field could not be decoded; each variant carries the
/// offending raw value.
#[derive(Debug, Clone, Copy, PartialEq, Eq, Structural)]
pub enum ParseError {
    HeaderSignature(u8, u8, u8),
    HeaderTypeFlagsReserved(u8),
    HeaderVersion(u8),
    HeaderDataOffset(u32),
    MetadataType,
    SoundFormat(u8),
    SoundRate(u8),
    SoundSize(u8),
    SoundType(u8),
    VideoFrameType(u8),
    VideoCodecId(u8),
    SeekFlag(u8),
}

/// Clean end of a stream: no byte was available where a field started.
#[derive(Debug, Clone, Copy, PartialEq, Eq, Structural)]
pub enum ReadError {
    Eof,
}

/// Relies on std::io::Error only as an opaque value: it is carried from a byte
/// source or sink to the caller unchanged.
#[verifier::external_type_specification]
#[verifier::external_body]
pub struct ExIoError(std::io::Error);

/// Everything a reader or writer can fail with.
#[derive(Debug)]
pub enum Error {
    /// A fixed-layout field held a value it may not.
    Parse(ParseError),
    /// The byte source or sink failed, or a field was cut short.
    Io(std::io::Error),
    /// The stream ended cleanly where a field started.
    Read(ReadError),
    /// A tag payload of this many bytes does not fit the 24-bit data size.
    DataSize(usize),
    /// A metadata string was not UTF-8; these are its bytes.
    Utf8(Vec<u8>),
    /// A metadata type marker differed from the one the grammar expects:
    /// (expected, found).
    Marker(u8, u8),
    /// A metadata object broke the grammar.
    Other(&'static str),
    /// A metadata value had a type marker that is not decoded.
    Unimplemented(u8),
}

} // verus!
