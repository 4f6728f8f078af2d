use vstd::prelude::*;

use crate::error::{Error, ParseError, ReadError};
use crate::header::{be_u24, be_u32, decode_header, Header, HEADER_SIZE};
use crate::metadata::{fails_as, parse_metadata, MetaData};
use crate::media::{audio_header_decodes, video_header_decodes, AudioDataHeader, VideoDataHeader};
use crate::stream::{ByteSource, Chunk};
use crate::tag::{decode_tag_header, TagHeader, TAG_HEADER_SIZE};

verus! {

/// Relies on std::io::Error::new: builds the error that reports a field cut
/// short by the end of the stream.
#[verifier::external_body]
pub(crate) fn unexpected_eof() -> std::io::Error {
    std::io::Error::new(std::io::ErrorKind::UnexpectedEof, "failed to fill whole buffer")
}

/// The bytes taken from a source between two states of a reader.
pub open spec fn taken_since(before: Seq<u8>, after: Seq<u8>) -> Seq<u8> {
    after.subrange(before.len() as int, after.len() as int)
}

proof fn lemma_taken_since(before: Seq<u8>, more: Seq<u8>)
    ensures
        before.is_prefix_of(before + more),
        taken_since(before, before + more) == more,
        (before + more == before) <==> more.len() == 0,
{
    assert((before + more).subrange(0, before.len() as int) =~= before);
    assert(taken_since(before, before + more) =~= more);
    if more.len() == 0 {
        assert(before + more =~= before);
    }
    if before + more == before {
        assert((before + more).len() == before.len());
    }
}

/// With a reliable source, a read of `n` bytes took the first `n` bytes it
/// held (all of them when it held fewer) and left it holding the rest.
pub open spec fn takes_from<R: ByteSource>(before: R, after: R, got: Seq<u8>, n: nat) -> bool {
    before.reliable() ==> {
        let rem = before.remaining();
        &&& after.reliable()
        &&& got == rem.take(
            if rem.len() < n {
                rem.len() as int
            } else {
                n as int
            },
        )
        &&& after.remaining() == rem.skip(got.len() as int)
    }
}

/// An error that a field read gives when the source ended or failed.
pub open spec fn is_stream_error(e: Error) -> bool {
    e is Read || e is Io
}

/// Sequential reader of an FLV stream.
pub struct FlvReader<R> {
    reader: R,
    taken: Ghost<Seq<u8>>,
    ended: Ghost<bool>,
    failed: Ghost<bool>,
}

impl<R: ByteSource> FlvReader<R> {
    /// Every byte this reader has taken from its source, in order.
    pub closed spec fn taken(&self) -> Seq<u8> {
        self.taken@
    }

    /// The last read of the source found it ended.
    pub closed spec fn ended(&self) -> bool {
        self.ended@
    }

    /// The last read of the source found it failing.
    pub closed spec fn failed(&self) -> bool {
        self.failed@
    }

    /// The source this reader takes from.
    pub closed spec fn source(&self) -> R {
        self.reader
    }

    /// A reader that has taken nothing yet.
    pub fn new(reader: R) -> (r: FlvReader<R>)
        ensures
            r.taken() == Seq::<u8>::empty(),
            !r.ended(),
            !r.failed(),
            r.source() == reader,
    {
        FlvReader { reader, taken: Ghost(Seq::empty()), ended: Ghost(false), failed: Ghost(false) }
    }

    /// Gives the source back.
    pub fn into_inner(self) -> (r: R)
        ensures
            r == self.source(),
    {
        self.reader
    }

    /// Reads exactly `n` bytes. When the source ends before the first byte the
    /// error is the clean end of stream; when it ends later, the field is
    /// truncated and the error is an I/O one.
    fn try_read_exact(&mut self, n: usize) -> (r: Result<Vec<u8>, Error>)
        ensures
            old(self).taken().is_prefix_of(final(self).taken()),
            taken_since(old(self).taken(), final(self).taken()).len() <= n,
            r is Ok <==> taken_since(old(self).taken(), final(self).taken()).len() == n,
            r is Ok ==> r->Ok_0@ == taken_since(old(self).taken(), final(self).taken()),
            r is Err ==> is_stream_error(r->Err_0),
            r is Err && r->Err_0 is Read <==> (r is Err && final(self).ended()
                && final(self).taken() == old(self).taken()),
            r is Err && r->Err_0 is Read ==> r->Err_0 == Error::Read(ReadError::Eof),
            r is Ok ==> !final(self).ended(),
            final(self).taken() == old(self).taken() <==> taken_since(
                old(self).taken(),
                final(self).taken(),
            ).len() == 0,
            r is Err ==> final(self).ended() || final(self).failed(),
            old(self).source().reliable() ==> !final(self).failed(),
            takes_from(
                old(self).source(),
                final(self).source(),
                taken_since(old(self).taken(), final(self).taken()),
                n as nat,
            ),
            old(self).source().reliable() ==> (r is Ok <==> old(self).source().remaining().len()
                >= n),
            old(self).source().reliable() && n > 0 && old(self).source().remaining().len() == 0
                ==> r is Err && r->Err_0 == Error::Read(ReadError::Eof),
            old(self).source().reliable() && 0 < old(self).source().remaining().len() < n ==> r is Err
                && r->Err_0 is Io,
    {
        let ghost start = self.taken@;
        self.ended = Ghost(false);
        self.failed = Ghost(false);
        let mut buf: Vec<u8> = Vec::new();
        assert(self.taken@ =~= start + buf@);
        while buf.len() < n
            invariant
                start == old(self).taken(),
                self.taken@ == start + buf@,
                buf@.len() <= n,
                !self.ended@,
                !self.failed@,
                old(self).reader.reliable() ==> self.reader.reliable() && old(self).reader.remaining()
                    == buf@ + self.reader.remaining(),
            decreases n - buf@.len(),
        {
            let chunk = self.reader.read_chunk(n - buf.len());
            match chunk {
                Chunk::Bytes(bytes) => {
                    let mut bytes = bytes;
                    self.taken = Ghost(self.taken@ + bytes@);
                    proof {
                        assert(self.taken@ =~= start + (buf@ + bytes@));
                    }
                    buf.append(&mut bytes);
                },
                Chunk::End => {
                    proof {
                        lemma_taken_since(start, buf@);
                    }
                    self.ended = Ghost(true);
                    proof {
                        if old(self).reader.reliable() {
                            let rem = old(self).reader.remaining();
                            assert(rem =~= buf@);
                            assert(rem.take(rem.len() as int) =~= rem);
                            assert(rem.skip(buf@.len() as int) =~= self.reader.remaining());
                        }
                    }
                    let err = if buf.len() == 0 {
                        Error::Read(ReadError::Eof)
                    } else {
                        Error::Io(unexpected_eof())
                    };
                    return Err(err);
                },
                Chunk::Failed(e) => {
                    self.failed = Ghost(true);
                    proof {
                        lemma_taken_since(start, buf@);
                    }
                    return Err(Error::Io(e));
                },
            }
        }
        proof {
            lemma_taken_since(start, buf@);
            if old(self).reader.reliable() {
                let rem = old(self).reader.remaining();
                assert(rem.take(n as int) =~= buf@);
                assert(rem.skip(n as int) =~= self.reader.remaining());
            }
        }
        Ok(buf)
    }

    /// Reads and decodes the nine-byte file header.
    pub fn read_header(&mut self) -> (r: Result<Header, Error>)
        ensures
            old(self).taken().is_prefix_of(final(self).taken()),
            ({
                let got = taken_since(old(self).taken(), final(self).taken());
                let n: nat = HEADER_SIZE as nat;
                &&& takes_from(old(self).source(), final(self).source(), got, n)
                &&& r is Err && is_stream_error(r->Err_0) ==> final(self).ended() || final(self).failed()
                &&& got.len() <= HEADER_SIZE
                &&& got.len() < HEADER_SIZE ==> r is Err && is_stream_error(r->Err_0)
                &&& got.len() == HEADER_SIZE ==> match decode_header(got) {
                    Ok(h) => r == Ok::<Header, Error>(h),
                    Err(e) => r is Err && r->Err_0 == Error::Parse(e),
                }
            }),
    {
        let bytes = match self.try_read_exact(9) {
            Ok(b) => b,
            Err(e) => return Err(e),
        };
        let buffer: [u8; 9] = [
            bytes[0], bytes[1], bytes[2], bytes[3], bytes[4], bytes[5], bytes[6], bytes[7],
            bytes[8],
        ];
        assert(buffer@ =~= bytes@);
        match Header::try_from(&buffer) {
            Ok(h) => Ok(h),
            Err(e) => Err(Error::Parse(e)),
        }
    }

    /// Reads the 3-byte end-of-object marker of a script-data object, which
    /// must hold 9.
    pub fn read_end_marker(&mut self) -> (r: Result<(), Error>)
        ensures
            old(self).taken().is_prefix_of(final(self).taken()),
            ({
                let got = taken_since(old(self).taken(), final(self).taken());
                let n: nat = 3;
                &&& takes_from(old(self).source(), final(self).source(), got, n)
                &&& r is Err && is_stream_error(r->Err_0) ==> final(self).ended() || final(self).failed()
                &&& got.len() <= 3
                &&& got.len() < 3 ==> r is Err && is_stream_error(r->Err_0)
                &&& got.len() == 3 ==> (r is Ok <==> be_u24(got[0], got[1], got[2]) == 9)
                &&& got.len() == 3 && r is Err ==> r->Err_0 == Error::Other(
                    "invalid end of object",
                )
            }),
    {
        let end = match self.try_read_exact(3) {
            Ok(b) => b,
            Err(e) => return Err(e),
        };
        let value: u32 = (end[0] as u32) * 0x10000 + (end[1] as u32) * 0x100 + end[2] as u32;
        if value != 9 {
            return Err(Error::Other("invalid end of object"));
        }
        Ok(())
    }

    /// Reads the 4-byte size of the previous tag; a short read is always an error.
    pub fn read_pre_tag_size(&mut self) -> (r: Result<u32, Error>)
        ensures
            old(self).taken().is_prefix_of(final(self).taken()),
            ({
                let got = taken_since(old(self).taken(), final(self).taken());
                let n: nat = 4;
                &&& takes_from(old(self).source(), final(self).source(), got, n)
                &&& r is Err && is_stream_error(r->Err_0) ==> final(self).ended() || final(self).failed()
                &&& got.len() <= 4
                &&& got.len() < 4 ==> r is Err && is_stream_error(r->Err_0)
                &&& got.len() == 4 ==> r == Ok::<u32, Error>(
                    be_u32(got[0], got[1], got[2], got[3]) as u32,
                )
            }),
    {
        let b = match self.try_read_exact(4) {
            Ok(b) => b,
            Err(e) => return Err(e),
        };
        Ok((b[0] as u32) * 0x1000000 + (b[1] as u32) * 0x10000 + (b[2] as u32) * 0x100
            + b[3] as u32)
    }

    /// Reads the eleven-byte tag header. `Ok(None)` is the clean end of the
    /// stream: the source had no byte at all. A source that ends within the
    /// header gives a truncation error.
    pub fn read_tag_header(&mut self) -> (r: Result<Option<TagHeader>, Error>)
        ensures
            old(self).taken().is_prefix_of(final(self).taken()),
            ({
                let got = taken_since(old(self).taken(), final(self).taken());
                let n: nat = TAG_HEADER_SIZE as nat;
                &&& takes_from(old(self).source(), final(self).source(), got, n)
                &&& r is Err && is_stream_error(r->Err_0) ==> final(self).ended() || final(self).failed()
                &&& got.len() <= TAG_HEADER_SIZE
                &&& r == Ok::<Option<TagHeader>, Error>(None) <==> (got.len() == 0
                    && final(self).ended())
                &&& 0 < got.len() < TAG_HEADER_SIZE ==> r is Err && r->Err_0 is Io
                &&& got.len() == 0 && !final(self).ended() ==> r is Err && r->Err_0 is Io
                &&& got.len() == TAG_HEADER_SIZE ==> r == Ok::<Option<TagHeader>, Error>(
                    Some(decode_tag_header(got)),
                )
            }),
            old(self).source().reliable() ==> {
                let rem = old(self).source().remaining();
                &&& r == Ok::<Option<TagHeader>, Error>(None) <==> rem.len() == 0
                &&& 0 < rem.len() < TAG_HEADER_SIZE ==> r is Err && r->Err_0 is Io
                &&& rem.len() >= TAG_HEADER_SIZE ==> r == Ok::<Option<TagHeader>, Error>(
                    Some(decode_tag_header(rem.take(TAG_HEADER_SIZE as int))),
                )
            },
    {
        let b = match self.try_read_exact(11) {
            Ok(b) => b,
            Err(Error::Read(ReadError::Eof)) => return Ok(None),
            Err(e) => return Err(e),
        };
        let buffer: [u8; 11] = [b[0], b[1], b[2], b[3], b[4], b[5], b[6], b[7], b[8], b[9], b[10]];
        assert(buffer@ =~= b@);
        Ok(Some(TagHeader::from_bytes(&buffer)))
    }

    /// Reads and decodes the one-byte sub-header of a video tag.
    pub fn read_video_data_header(&mut self) -> (r: Result<VideoDataHeader, Error>)
        ensures
            old(self).taken().is_prefix_of(final(self).taken()),
            ({
                let got = taken_since(old(self).taken(), final(self).taken());
                let n: nat = 1;
                &&& takes_from(old(self).source(), final(self).source(), got, n)
                &&& r is Err && is_stream_error(r->Err_0) ==> final(self).ended() || final(self).failed()
                &&& got.len() <= 1
                &&& got.len() == 0 ==> r is Err && is_stream_error(r->Err_0)
                &&& got.len() == 1 ==> match r {
                    Ok(h) => video_header_decodes(got[0], Ok(h)),
                    Err(Error::Parse(e)) => video_header_decodes(got[0], Err(e)),
                    Err(_) => false,
                }
            }),
    {
        let b = match self.try_read_exact(1) {
            Ok(b) => b,
            Err(e) => return Err(e),
        };
        match VideoDataHeader::try_from(b[0]) {
            Ok(h) => Ok(h),
            Err(e) => Err(Error::Parse(e)),
        }
    }

    /// Reads and decodes the one-byte sub-header of an audio tag.
    pub fn read_audio_data_header(&mut self) -> (r: Result<AudioDataHeader, Error>)
        ensures
            old(self).taken().is_prefix_of(final(self).taken()),
            ({
                let got = taken_since(old(self).taken(), final(self).taken());
                let n: nat = 1;
                &&& takes_from(old(self).source(), final(self).source(), got, n)
                &&& r is Err && is_stream_error(r->Err_0) ==> final(self).ended() || final(self).failed()
                &&& got.len() <= 1
                &&& got.len() == 0 ==> r is Err && is_stream_error(r->Err_0)
                &&& got.len() == 1 ==> match r {
                    Ok(h) => audio_header_decodes(got[0], Ok(h)),
                    Err(Error::Parse(e)) => audio_header_decodes(got[0], Err(e)),
                    Err(_) => false,
                }
            }),
    {
        let b = match self.try_read_exact(1) {
            Ok(b) => b,
            Err(e) => return Err(e),
        };
        match AudioDataHeader::try_from(b[0]) {
            Ok(h) => Ok(h),
            Err(e) => Err(Error::Parse(e)),
        }
    }

    /// Reads the `data_size` payload bytes of a script-data tag and decodes
    /// them as an onMetaData object.
    pub fn read_metadata(&mut self, data_size: usize) -> (r: Result<MetaData, Error>)
        ensures
            old(self).taken().is_prefix_of(final(self).taken()),
            ({
                let got = taken_since(old(self).taken(), final(self).taken());
                let n: nat = data_size as nat;
                &&& takes_from(old(self).source(), final(self).source(), got, n)
                &&& got.len() <= data_size
                &&& got.len() < data_size ==> r is Err && is_stream_error(r->Err_0) && (
                final(self).ended() || final(self).failed())
                &&& got.len() == data_size ==> match parse_metadata(got) {
                    Ok(m) => r is Ok && r->Ok_0@ == m,
                    Err(f) => r is Err && fails_as(r->Err_0, f),
                }
            }),
    {
        let payload = match self.try_read_exact(data_size) {
            Ok(b) => b,
            Err(e) => return Err(e),
        };
        MetaData::decode(payload.as_slice())
    }

    /// Reads the payload of an audio or video tag whose header declared
    /// `declared_size`: the sub-header byte was already read, so this takes
    /// `declared_size - 1` bytes (none when the declared size is 0).
    pub fn read_data(&mut self, declared_size: usize) -> (r: Result<Vec<u8>, Error>)
        ensures
            old(self).taken().is_prefix_of(final(self).taken()),
            ({
                let got = taken_since(old(self).taken(), final(self).taken());
                let n: nat = if declared_size == 0 { 0 } else { (declared_size - 1) as nat };
                let len = if declared_size == 0 {
                    0
                } else {
                    declared_size - 1
                };
                &&& takes_from(old(self).source(), final(self).source(), got, n)
                &&& r is Err && is_stream_error(r->Err_0) ==> final(self).ended() || final(self).failed()
                &&& got.len() <= len
                &&& r is Ok <==> got.len() == len
                &&& r is Ok ==> r->Ok_0@ == got
                &&& r is Err ==> is_stream_error(r->Err_0)
            }),
    {
        let len = if declared_size == 0 {
            0
        } else {
            declared_size - 1
        };
        self.try_read_exact(len)
    }
}

} // verus!
