//! Reading and writing the FLV container format: the file header, the tag
//! stream with its audio and video sub-headers, the script-data metadata
//! object, and seeking by the keyframe index.
pub mod error;
pub mod header;
pub mod index;
pub mod keyframes;
pub mod media;
pub mod metadata;
pub mod reader;
pub mod stream;
pub mod tag;
pub mod writer;

pub use crate::error::{Error, ParseError, ReadError};
pub use crate::header::Header;
pub use crate::index::{FlvIndexCache, FlvSeekFrom, IndexCache};
pub use crate::keyframes::KeyframeIndex;
pub use crate::media::{
    AudioDataHeader, SeekFlag, SoundFormat, SoundRate, SoundSize, SoundType, VideoCodecId,
    VideoDataHeader, VideoFrameType,
};
pub use crate::metadata::{Keyframes, MetaData};
pub use crate::reader::FlvReader;
pub use crate::stream::{ByteSink, ByteSource, Chunk, MemorySource};
pub use crate::tag::{TagHeader, TagType};
pub use crate::writer::FlvWriter;
