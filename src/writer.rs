use vstd::prelude::*;

use crate::error::Error;
use crate::header::{header_bytes, Header};
use crate::metadata::MetaData;
use crate::media::{audio_header_byte, video_header_byte, AudioDataHeader, VideoDataHeader};
use crate::stream::ByteSink;
use crate::tag::{tag_header_bytes, TagHeader, TagType, MAX_DATA_SIZE, TAG_HEADER_SIZE};

verus! {

/// Sequential writer of an FLV stream.
pub struct FlvWriter<W> {
    writer: W,
}

/// The bytes that frame one tag: its header, with the sub-header and payload
/// counted in the data size, then the sub-header byte and the payload.
pub open spec fn tag_bytes(tag_type: TagType, timestamp: i32, sub: u8, data: Seq<u8>) -> Seq<u8> {
    tag_header_bytes(TagHeader { tag_type, data_size: (data.len() + 1) as u32, timestamp })
        + seq![sub] + data
}

impl<W: ByteSink> FlvWriter<W> {
    /// The sink this writer sends to.
    pub closed spec fn sink(&self) -> W {
        self.writer
    }

    /// A writer over `writer`.
    pub fn new(writer: W) -> (r: FlvWriter<W>)
        ensures
            r.sink() == writer,
    {
        FlvWriter { writer }
    }

    /// Gives the sink back.
    pub fn into_inner(self) -> (r: W)
        ensures
            r == self.sink(),
    {
        self.writer
    }

    /// Writes the file header and the zero size marker that precedes the first
    /// tag; returns the 13 bytes written. Only a failing sink makes it fail.
    pub fn write_header(&mut self, header: Header) -> (r: Result<u64, Error>)
        ensures
            r is Ok ==> r == Ok::<u64, Error>(13),
            r is Err ==> r->Err_0 is Io,
            old(self).sink().reliable() ==> {
                &&& r is Ok
                &&& final(self).sink().reliable()
                &&& final(self).sink().written() == old(self).sink().written() + header_bytes(header)
                    + seq![0u8, 0u8, 0u8, 0u8]
            },
    {
        let buffer = header.to_bytes();
        match self.writer.write_all(buffer.as_slice()) {
            Ok(()) => {},
            Err(e) => return Err(Error::Io(e)),
        }
        let zero = [0u8, 0u8, 0u8, 0u8];
        match self.writer.write_all(zero.as_slice()) {
            Ok(()) => {},
            Err(e) => return Err(Error::Io(e)),
        }
        assert(zero@ =~= seq![0u8, 0u8, 0u8, 0u8]);
        Ok(9 + 4)
    }

    /// Metadata is not written by this writer: nothing is sent and 0 bytes
    /// are reported.
    pub fn write_metadata(&mut self, metadata: MetaData) -> (r: Result<u64, Error>)
        ensures
            r is Ok && r->Ok_0 == 0,
            final(self).sink() == old(self).sink(),
    {
        Ok(0)
    }

    /// Frames one tag. A data size (sub-header plus payload) above the 24-bit
    /// maximum is refused before anything is sent; otherwise only a failing
    /// sink makes it fail.
    fn write_tag(&mut self, timestamp: i32, tag_type: TagType, sub: u8, data: &[u8]) -> (r:
        Result<u64, Error>)
        ensures
            data@.len() + 1 > MAX_DATA_SIZE <==> (r is Err && r->Err_0 is DataSize),
            data@.len() + 1 > MAX_DATA_SIZE ==> r == Err::<u64, Error>(
                Error::DataSize(data@.len() as usize),
            ) && final(self).sink() == old(self).sink(),
            r is Ok ==> r == Ok::<u64, Error>((TAG_HEADER_SIZE + 1 + data@.len()) as u64),
            r is Err && data@.len() + 1 <= MAX_DATA_SIZE ==> r->Err_0 is Io,
            old(self).sink().reliable() && data@.len() + 1 <= MAX_DATA_SIZE ==> {
                &&& r is Ok
                &&& final(self).sink().reliable()
                &&& final(self).sink().written() == old(self).sink().written() + tag_bytes(
                    tag_type,
                    timestamp,
                    sub,
                    data@,
                )
            },
    {
        if data.len() >= MAX_DATA_SIZE {
            return Err(Error::DataSize(data.len()));
        }
        let tag_header = TagHeader { tag_type, data_size: (data.len() + 1) as u32, timestamp };
        let th_data = tag_header.to_bytes();
        match self.writer.write_all(th_data.as_slice()) {
            Ok(()) => {},
            Err(e) => return Err(Error::Io(e)),
        }
        let sub_data = [sub];
        match self.writer.write_all(sub_data.as_slice()) {
            Ok(()) => {},
            Err(e) => return Err(Error::Io(e)),
        }
        match self.writer.write_all(data) {
            Ok(()) => {},
            Err(e) => return Err(Error::Io(e)),
        }
        assert(sub_data@ =~= seq![sub]);
        proof {
            if old(self).writer.reliable() {
                assert(self.writer.written() =~= old(self).writer.written() + tag_bytes(
                    tag_type,
                    timestamp,
                    sub,
                    data@,
                ));
            }
        }
        Ok((TAG_HEADER_SIZE + 1 + data.len()) as u64)
    }

    /// Writes one video tag: header, sub-header byte and payload; returns the
    /// number of bytes written.
    pub fn write_video_tag(&mut self, timestamp: i32, header: VideoDataHeader, data: &[u8]) -> (r:
        Result<u64, Error>)
        ensures
            data@.len() + 1 > MAX_DATA_SIZE <==> (r is Err && r->Err_0 is DataSize),
            data@.len() + 1 > MAX_DATA_SIZE ==> r == Err::<u64, Error>(
                Error::DataSize(data@.len() as usize),
            ) && final(self).sink() == old(self).sink(),
            r is Ok ==> r == Ok::<u64, Error>((TAG_HEADER_SIZE + 1 + data@.len()) as u64),
            r is Err && data@.len() + 1 <= MAX_DATA_SIZE ==> r->Err_0 is Io,
            old(self).sink().reliable() && data@.len() + 1 <= MAX_DATA_SIZE ==> {
                &&& r is Ok
                &&& final(self).sink().reliable()
                &&& final(self).sink().written() == old(self).sink().written() + tag_bytes(
                    TagType::Video,
                    timestamp,
                    video_header_byte(header),
                    data@,
                )
            },
    {
        self.write_tag(timestamp, TagType::Video, header.to_byte(), data)
    }

    /// Writes one audio tag: header, sub-header byte and payload; returns the
    /// number of bytes written.
    pub fn write_audio_tag(&mut self, timestamp: i32, header: AudioDataHeader, data: &[u8]) -> (r:
        Result<u64, Error>)
        ensures
            data@.len() + 1 > MAX_DATA_SIZE <==> (r is Err && r->Err_0 is DataSize),
            data@.len() + 1 > MAX_DATA_SIZE ==> r == Err::<u64, Error>(
                Error::DataSize(data@.len() as usize),
            ) && final(self).sink() == old(self).sink(),
            r is Ok ==> r == Ok::<u64, Error>((TAG_HEADER_SIZE + 1 + data@.len()) as u64),
            r is Err && data@.len() + 1 <= MAX_DATA_SIZE ==> r->Err_0 is Io,
            old(self).sink().reliable() && data@.len() + 1 <= MAX_DATA_SIZE ==> {
                &&& r is Ok
                &&& final(self).sink().reliable()
                &&& final(self).sink().written() == old(self).sink().written() + tag_bytes(
                    TagType::Audio,
                    timestamp,
                    audio_header_byte(header),
                    data@,
                )
            },
    {
        self.write_tag(timestamp, TagType::Audio, header.to_byte(), data)
    }
}

} // verus!
