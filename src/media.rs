use vstd::prelude::*;

use crate::error::ParseError;

verus! {

/// Sound format, the high four bits of an audio sub-header.
#[derive(Debug, Clone, Copy, PartialEq, Eq, Structural, PartialOrd, Ord, Hash)]
pub enum SoundFormat {
    LinearPCMPlatformEndian,
    ADPCM,
    MP3,
    LinearPCMLittleEndian,
    Nellymoser16,
    Nellymoser8,
    Nellymoser,
    G711ALaw,
    G711MuLaw,
    Reserved,
    AAC,
    Speex,
    MP38kHz,
    DeviceSpecific,
}

/// Sampling rate code, two bits.
#[derive(Debug, Clone, Copy, PartialEq, Eq, Structural, PartialOrd, Ord, Hash)]
pub enum SoundRate {
    R5p5kHz,
    R11kHz,
    R22kHz,
    R44kHz,
}

/// Sample size code, one bit.
#[derive(Debug, Clone, Copy, PartialEq, Eq, Structural, PartialOrd, Ord, Hash)]
pub enum SoundSize {
    S8Bit,
    S16Bit,
}

/// Channel layout code, one bit.
#[derive(Debug, Clone, Copy, PartialEq, Eq, Structural, PartialOrd, Ord, Hash)]
pub enum SoundType {
    Mono,
    Stereo,
}

/// Video frame type, the high four bits of a video sub-header.
#[derive(Debug, Clone, Copy, PartialEq, Eq, Structural, PartialOrd, Ord, Hash)]
pub enum VideoFrameType {
    KeyFrame,
    InterFrame,
    DisposableInterFrame,
    GeneratedKeyFrame,
    VideoInfoOrCommandFrame,
}

/// Video codec id, the low four bits of a video sub-header.
#[derive(Debug, Clone, Copy, PartialEq, Eq, Structural, PartialOrd, Ord, Hash)]
pub enum VideoCodecId {
    JPEG,
    SorensonH263,
    ScreenVideo,
    On2VP6,
    On2VP6WithAlpha,
    ScreenVideoVersion2,
    AVC,
}

/// Client-side seeking marker carried by a command frame.
#[derive(Debug, Clone, Copy, PartialEq, Eq, Structural, PartialOrd, Ord, Hash)]
pub enum SeekFlag {
    Start,
    End,
}

pub open spec fn sound_format_code(f: SoundFormat) -> u8 {
    match f {
        SoundFormat::LinearPCMPlatformEndian => 0,
        SoundFormat::ADPCM => 1,
        SoundFormat::MP3 => 2,
        SoundFormat::LinearPCMLittleEndian => 3,
        SoundFormat::Nellymoser16 => 4,
        SoundFormat::Nellymoser8 => 5,
        SoundFormat::Nellymoser => 6,
        SoundFormat::G711ALaw => 7,
        SoundFormat::G711MuLaw => 8,
        SoundFormat::Reserved => 9,
        SoundFormat::AAC => 10,
        SoundFormat::Speex => 11,
        SoundFormat::MP38kHz => 14,
        SoundFormat::DeviceSpecific => 15,
    }
}

/// The sound format codes that have a variant: all but 12, 13 and above 15.
pub open spec fn sound_format_known(v: u8) -> bool {
    v <= 11 || v == 14 || v == 15
}

pub open spec fn sound_rate_code(r: SoundRate) -> u8 {
    match r {
        SoundRate::R5p5kHz => 0,
        SoundRate::R11kHz => 1,
        SoundRate::R22kHz => 2,
        SoundRate::R44kHz => 3,
    }
}

pub open spec fn sound_size_code(s: SoundSize) -> u8 {
    match s {
        SoundSize::S8Bit => 0,
        SoundSize::S16Bit => 1,
    }
}

pub open spec fn sound_type_code(t: SoundType) -> u8 {
    match t {
        SoundType::Mono => 0,
        SoundType::Stereo => 1,
    }
}

pub open spec fn frame_type_code(t: VideoFrameType) -> u8 {
    match t {
        VideoFrameType::KeyFrame => 1,
        VideoFrameType::InterFrame => 2,
        VideoFrameType::DisposableInterFrame => 3,
        VideoFrameType::GeneratedKeyFrame => 4,
        VideoFrameType::VideoInfoOrCommandFrame => 5,
    }
}

pub open spec fn codec_id_code(c: VideoCodecId) -> u8 {
    match c {
        VideoCodecId::JPEG => 1,
        VideoCodecId::SorensonH263 => 2,
        VideoCodecId::ScreenVideo => 3,
        VideoCodecId::On2VP6 => 4,
        VideoCodecId::On2VP6WithAlpha => 5,
        VideoCodecId::ScreenVideoVersion2 => 6,
        VideoCodecId::AVC => 7,
    }
}

pub open spec fn seek_flag_code(f: SeekFlag) -> u8 {
    match f {
        SeekFlag::Start => 0,
        SeekFlag::End => 1,
    }
}

impl SoundFormat {
    /// Decodes a sound format code; unknown codes are refused with the code.
    pub fn try_from(value: u8) -> (r: Result<SoundFormat, ParseError>)
        ensures
            r is Ok <==> sound_format_known(value),
            r is Ok ==> sound_format_code(r->Ok_0) == value,
            r is Err ==> r->Err_0 == ParseError::SoundFormat(value),
    {
        match value {
            0 => Ok(SoundFormat::LinearPCMPlatformEndian),
            1 => Ok(SoundFormat::ADPCM),
            2 => Ok(SoundFormat::MP3),
            3 => Ok(SoundFormat::LinearPCMLittleEndian),
            4 => Ok(SoundFormat::Nellymoser16),
            5 => Ok(SoundFormat::Nellymoser8),
            6 => Ok(SoundFormat::Nellymoser),
            7 => Ok(SoundFormat::G711ALaw),
            8 => Ok(SoundFormat::G711MuLaw),
            9 => Ok(SoundFormat::Reserved),
            10 => Ok(SoundFormat::AAC),
            11 => Ok(SoundFormat::Speex),
            14 => Ok(SoundFormat::MP38kHz),
            15 => Ok(SoundFormat::DeviceSpecific),
            n => Err(ParseError::SoundFormat(n)),
        }
    }

    /// The code that encodes this value.
    pub fn code(self) -> (r: u8)
        ensures
            r == sound_format_code(self),
    {
        match self {
            SoundFormat::LinearPCMPlatformEndian => 0,
            SoundFormat::ADPCM => 1,
            SoundFormat::MP3 => 2,
            SoundFormat::LinearPCMLittleEndian => 3,
            SoundFormat::Nellymoser16 => 4,
            SoundFormat::Nellymoser8 => 5,
            SoundFormat::Nellymoser => 6,
            SoundFormat::G711ALaw => 7,
            SoundFormat::G711MuLaw => 8,
            SoundFormat::Reserved => 9,
            SoundFormat::AAC => 10,
            SoundFormat::Speex => 11,
            SoundFormat::MP38kHz => 14,
            SoundFormat::DeviceSpecific => 15,
        }
    }
}

impl SoundRate {
    /// Decodes a sampling rate code (0 to 3).
    pub fn try_from(value: u8) -> (r: Result<SoundRate, ParseError>)
        ensures
            r is Ok <==> value <= 3,
            r is Ok ==> sound_rate_code(r->Ok_0) == value,
            r is Err ==> r->Err_0 == ParseError::SoundRate(value),
    {
        match value {
            0 => Ok(SoundRate::R5p5kHz),
            1 => Ok(SoundRate::R11kHz),
            2 => Ok(SoundRate::R22kHz),
            3 => Ok(SoundRate::R44kHz),
            n => Err(ParseError::SoundRate(n)),
        }
    }

    /// The code that encodes this value.
    pub fn code(self) -> (r: u8)
        ensures
            r == sound_rate_code(self),
    {
        match self {
            SoundRate::R5p5kHz => 0,
            SoundRate::R11kHz => 1,
            SoundRate::R22kHz => 2,
            SoundRate::R44kHz => 3,
        }
    }
}

impl SoundSize {
    /// Decodes a sample size code (0 or 1).
    pub fn try_from(value: u8) -> (r: Result<SoundSize, ParseError>)
        ensures
            r is Ok <==> value <= 1,
            r is Ok ==> sound_size_code(r->Ok_0) == value,
            r is Err ==> r->Err_0 == ParseError::SoundSize(value),
    {
        match value {
            0 => Ok(SoundSize::S8Bit),
            1 => Ok(SoundSize::S16Bit),
            n => Err(ParseError::SoundSize(n)),
        }
    }

    /// The code that encodes this value.
    pub fn code(self) -> (r: u8)
        ensures
            r == sound_size_code(self),
    {
        match self {
            SoundSize::S8Bit => 0,
            SoundSize::S16Bit => 1,
        }
    }
}

impl SoundType {
    /// Decodes a channel layout code (0 or 1).
    pub fn try_from(value: u8) -> (r: Result<SoundType, ParseError>)
        ensures
            r is Ok <==> value <= 1,
            r is Ok ==> sound_type_code(r->Ok_0) == value,
            r is Err ==> r->Err_0 == ParseError::SoundType(value),
    {
        match value {
            0 => Ok(SoundType::Mono),
            1 => Ok(SoundType::Stereo),
            n => Err(ParseError::SoundType(n)),
        }
    }

    /// The code that encodes this value.
    pub fn code(self) -> (r: u8)
        ensures
            r == sound_type_code(self),
    {
        match self {
            SoundType::Mono => 0,
            SoundType::Stereo => 1,
        }
    }
}

impl VideoFrameType {
    /// Decodes a frame type code (1 to 5).
    pub fn try_from(value: u8) -> (r: Result<VideoFrameType, ParseError>)
        ensures
            r is Ok <==> 1 <= value <= 5,
            r is Ok ==> frame_type_code(r->Ok_0) == value,
            r is Err ==> r->Err_0 == ParseError::VideoFrameType(value),
    {
        match value {
            1 => Ok(VideoFrameType::KeyFrame),
            2 => Ok(VideoFrameType::InterFrame),
            3 => Ok(VideoFrameType::DisposableInterFrame),
            4 => Ok(VideoFrameType::GeneratedKeyFrame),
            5 => Ok(VideoFrameType::VideoInfoOrCommandFrame),
            n => Err(ParseError::VideoFrameType(n)),
        }
    }

    /// The code that encodes this value.
    pub fn code(self) -> (r: u8)
        ensures
            r == frame_type_code(self),
    {
        match self {
            VideoFrameType::KeyFrame => 1,
            VideoFrameType::InterFrame => 2,
            VideoFrameType::DisposableInterFrame => 3,
            VideoFrameType::GeneratedKeyFrame => 4,
            VideoFrameType::VideoInfoOrCommandFrame => 5,
        }
    }
}

impl VideoCodecId {
    /// Decodes a codec id (1 to 7).
    pub fn try_from(value: u8) -> (r: Result<VideoCodecId, ParseError>)
        ensures
            r is Ok <==> 1 <= value <= 7,
            r is Ok ==> codec_id_code(r->Ok_0) == value,
            r is Err ==> r->Err_0 == ParseError::VideoCodecId(value),
    {
        match value {
            1 => Ok(VideoCodecId::JPEG),
            2 => Ok(VideoCodecId::SorensonH263),
            3 => Ok(VideoCodecId::ScreenVideo),
            4 => Ok(VideoCodecId::On2VP6),
            5 => Ok(VideoCodecId::On2VP6WithAlpha),
            6 => Ok(VideoCodecId::ScreenVideoVersion2),
            7 => Ok(VideoCodecId::AVC),
            n => Err(ParseError::VideoCodecId(n)),
        }
    }

    /// The code that encodes this value.
    pub fn code(self) -> (r: u8)
        ensures
            r == codec_id_code(self),
    {
        match self {
            VideoCodecId::JPEG => 1,
            VideoCodecId::SorensonH263 => 2,
            VideoCodecId::ScreenVideo => 3,
            VideoCodecId::On2VP6 => 4,
            VideoCodecId::On2VP6WithAlpha => 5,
            VideoCodecId::ScreenVideoVersion2 => 6,
            VideoCodecId::AVC => 7,
        }
    }
}

impl SeekFlag {
    /// Decodes a seek flag byte (0 or 1).
    pub fn try_from(value: u8) -> (r: Result<SeekFlag, ParseError>)
        ensures
            r is Ok <==> value <= 1,
            r is Ok ==> seek_flag_code(r->Ok_0) == value,
            r is Err ==> r->Err_0 == ParseError::SeekFlag(value),
    {
        match value {
            0 => Ok(SeekFlag::Start),
            1 => Ok(SeekFlag::End),
            n => Err(ParseError::SeekFlag(n)),
        }
    }

    /// The code that encodes this value.
    pub fn code(self) -> (r: u8)
        ensures
            r == seek_flag_code(self),
    {
        match self {
            SeekFlag::Start => 0,
            SeekFlag::End => 1,
        }
    }
}

/// One-byte sub-header of an audio tag.
#[derive(Debug, Clone, Copy, PartialEq, Eq, Structural, PartialOrd, Ord, Hash)]
pub struct AudioDataHeader {
    pub sound_format: SoundFormat,
    pub sound_rate: SoundRate,
    pub sound_size: SoundSize,
    pub sound_type: SoundType,
}

/// One-byte sub-header of a video tag.
#[derive(Debug, Clone, Copy, PartialEq, Eq, Structural, PartialOrd, Ord, Hash)]
pub struct VideoDataHeader {
    pub frame_type: VideoFrameType,
    pub codec_id: VideoCodecId,
}

/// The byte of an audio sub-header: format, rate, size and type packed as
/// 4/2/1/1 bits from high to low.
pub open spec fn audio_header_byte(h: AudioDataHeader) -> u8 {
    (sound_format_code(h.sound_format) * 16 + sound_rate_code(h.sound_rate) * 4
        + sound_size_code(h.sound_size) * 2 + sound_type_code(h.sound_type)) as u8
}

/// The byte of a video sub-header: frame type in the high four bits, codec id
/// in the low four.
pub open spec fn video_header_byte(h: VideoDataHeader) -> u8 {
    (frame_type_code(h.frame_type) * 16 + codec_id_code(h.codec_id)) as u8
}

/// The audio sub-headers that a byte decodes to: it is refused, with the format
/// code, exactly when the high four bits are 12 or 13.
pub open spec fn audio_header_decodes(v: u8, r: Result<AudioDataHeader, ParseError>) -> bool {
    &&& r is Ok <==> sound_format_known(v / 16)
    &&& r is Ok ==> audio_header_byte(r->Ok_0) == v
    &&& r is Err ==> r->Err_0 == ParseError::SoundFormat(v / 16)
}

/// The video sub-headers that a byte decodes to: a frame type outside 1 to 5 is
/// refused with that code first, then a codec id outside 1 to 7.
pub open spec fn video_header_decodes(v: u8, r: Result<VideoDataHeader, ParseError>) -> bool {
    &&& r is Ok <==> (1 <= v / 16 <= 5 && 1 <= v % 16 <= 7)
    &&& r is Ok ==> video_header_byte(r->Ok_0) == v
    &&& !(1 <= v / 16 <= 5) ==> r == Err::<VideoDataHeader, ParseError>(
        ParseError::VideoFrameType(v / 16),
    )
    &&& (1 <= v / 16 <= 5 && !(1 <= v % 16 <= 7)) ==> r == Err::<VideoDataHeader, ParseError>(
        ParseError::VideoCodecId(v % 16),
    )
}

impl AudioDataHeader {
    /// Decodes an audio sub-header byte.
    pub fn try_from(value: u8) -> (r: Result<AudioDataHeader, ParseError>)
        ensures
            audio_header_decodes(value, r),
    {
        let sound_format = match SoundFormat::try_from(value / 16) {
            Ok(f) => f,
            Err(e) => return Err(e),
        };
        let sound_rate = match SoundRate::try_from(value / 4 % 4) {
            Ok(v) => v,
            Err(e) => return Err(e),
        };
        let sound_size = match SoundSize::try_from(value / 2 % 2) {
            Ok(v) => v,
            Err(e) => return Err(e),
        };
        let sound_type = match SoundType::try_from(value % 2) {
            Ok(v) => v,
            Err(e) => return Err(e),
        };
        Ok(AudioDataHeader { sound_format, sound_rate, sound_size, sound_type })
    }

    /// Encodes the sub-header into its byte.
    pub fn to_byte(self) -> (r: u8)
        ensures
            r == audio_header_byte(self),
    {
        self.sound_format.code() * 16 + self.sound_rate.code() * 4 + self.sound_size.code() * 2
            + self.sound_type.code()
    }
}

impl VideoDataHeader {
    /// Decodes a video sub-header byte.
    pub fn try_from(value: u8) -> (r: Result<VideoDataHeader, ParseError>)
        ensures
            video_header_decodes(value, r),
    {
        let frame_type = match VideoFrameType::try_from(value / 16) {
            Ok(v) => v,
            Err(e) => return Err(e),
        };
        let codec_id = match VideoCodecId::try_from(value % 16) {
            Ok(v) => v,
            Err(e) => return Err(e),
        };
        Ok(VideoDataHeader { frame_type, codec_id })
    }

    /// Encodes the sub-header into its byte.
    pub fn to_byte(self) -> (r: u8)
        ensures
            r == video_header_byte(self),
    {
        self.frame_type.code() * 16 + self.codec_id.code()
    }
}

/// Every audio sub-header survives encoding then decoding.
pub proof fn lemma_audio_header_round_trip(h: AudioDataHeader, r: Result<AudioDataHeader, ParseError>)
    requires
        audio_header_decodes(audio_header_byte(h), r),
    ensures
        r == Ok::<AudioDataHeader, ParseError>(h),
{
    let v = audio_header_byte(h);
    assert(v / 16 == sound_format_code(h.sound_format));
    assert(sound_format_known(v / 16));
    let g = r->Ok_0;
    assert(audio_header_byte(g) == v);
    assert(g.sound_format == h.sound_format && g.sound_rate == h.sound_rate
        && g.sound_size == h.sound_size && g.sound_type == h.sound_type);
}

/// Every video sub-header survives encoding then decoding.
pub proof fn lemma_video_header_round_trip(h: VideoDataHeader, r: Result<VideoDataHeader, ParseError>)
    requires
        video_header_decodes(video_header_byte(h), r),
    ensures
        r == Ok::<VideoDataHeader, ParseError>(h),
{
    let v = video_header_byte(h);
    assert(v / 16 == frame_type_code(h.frame_type));
    assert(v % 16 == codec_id_code(h.codec_id));
    let g = r->Ok_0;
    assert(video_header_byte(g) == v);
    assert(g.frame_type == h.frame_type && g.codec_id == h.codec_id);
}

} // verus!
