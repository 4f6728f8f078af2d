use flv::{
    AudioDataHeader, Header, ParseError, SeekFlag, SoundFormat, SoundRate, SoundSize, SoundType,
    TagHeader, TagType, VideoCodecId, VideoDataHeader, VideoFrameType,
};

#[test]
fn parse_header() {
    let header = Header {
        version: 1,
        audio_flag: true,
        video_flag: true,
        data_offset: 9,
    };

    let bytes: [u8; 9] = header.to_bytes();

    let parsed = Header::try_from(&bytes);

    assert_eq!(Ok(header), parsed);
    assert_eq!(Ok(bytes), parsed.map(|h| h.to_bytes()));
}

#[test]
fn header_round_trip_all_flags() {
    for audio in [false, true] {
        for video in [false, true] {
            let h = Header { version: 1, audio_flag: audio, video_flag: video, data_offset: 9 };
            let b = h.to_bytes();
            assert_eq!(Header::try_from(&b), Ok(h));
        }
    }
}

#[test]
fn header_bytes_exact() {
    let h = Header { version: 1, audio_flag: true, video_flag: false, data_offset: 9 };
    assert_eq!(h.to_bytes(), [b'F', b'L', b'V', 1, 4, 0, 0, 0, 9]);
}

#[test]
fn header_bad_signature() {
    let b = [b'F', b'L', b'X', 1, 5, 0, 0, 0, 9];
    assert_eq!(Header::try_from(&b), Err(ParseError::HeaderSignature(b'F', b'L', b'X')));
    let b = [0, 0, 0, 0, 0, 0, 0, 0, 0];
    assert_eq!(Header::try_from(&b), Err(ParseError::HeaderSignature(0, 0, 0)));
}

#[test]
fn header_bad_version_and_flags() {
    let b = [b'F', b'L', b'V', 2, 5, 0, 0, 0, 9];
    assert_eq!(Header::try_from(&b), Err(ParseError::HeaderVersion(2)));
    let b = [b'F', b'L', b'V', 1, 0x0f, 0, 0, 0, 9];
    assert_eq!(Header::try_from(&b), Err(ParseError::HeaderTypeFlagsReserved(0x0a)));
}

#[test]
fn header_bad_data_offset() {
    let b = [b'F', b'L', b'V', 1, 5, 0, 0, 0, 10];
    assert_eq!(Header::try_from(&b), Err(ParseError::HeaderDataOffset(10)));
    let b = [b'F', b'L', b'V', 1, 5, 1, 0, 0, 9];
    assert_eq!(Header::try_from(&b), Err(ParseError::HeaderDataOffset(0x0100_0009)));
}

#[test]
fn tag_header_round_trip() {
    let types = [TagType::Audio, TagType::Video, TagType::ScriptData, TagType::Reserved(0), TagType::Reserved(255)];
    let sizes = [0u32, 1, 0x1234, 0x00ff_ffff];
    let stamps = [0i32, 1, 0x00ff_ffff, 0x0100_0000, i32::MAX, -1, i32::MIN];
    for t in types {
        for s in sizes {
            for ts in stamps {
                let h = TagHeader { tag_type: t, data_size: s, timestamp: ts };
                assert_eq!(TagHeader::from_bytes(&h.to_bytes()), h);
            }
        }
    }
}

#[test]
fn tag_header_bytes_exact() {
    let h = TagHeader { tag_type: TagType::Video, data_size: 0x010203, timestamp: 0x0a0b0c0d };
    assert_eq!(h.to_bytes(), [9, 1, 2, 3, 0x0b, 0x0c, 0x0d, 0x0a, 0, 0, 0]);
    let h = TagHeader::from_bytes(&[18, 0, 0, 5, 0xff, 0xff, 0xff, 0xff, 7, 7, 7]);
    assert_eq!(h, TagHeader { tag_type: TagType::ScriptData, data_size: 5, timestamp: -1 });
    assert_eq!(TagType::from_byte(7), TagType::Reserved(7));
    assert_eq!(TagType::Audio.to_byte(), 8);
}

#[test]
fn audio_header_codes() {
    let h = AudioDataHeader {
        sound_format: SoundFormat::AAC,
        sound_rate: SoundRate::R44kHz,
        sound_size: SoundSize::S16Bit,
        sound_type: SoundType::Stereo,
    };
    assert_eq!(h.to_byte(), 0xaf);
    assert_eq!(AudioDataHeader::try_from(0xaf), Ok(h));
    for b in 0..=255u8 {
        if let Ok(h) = AudioDataHeader::try_from(b) {
            assert_eq!(h.to_byte(), b);
        }
    }
}

#[test]
fn audio_header_rejects_unknown_format() {
    assert_eq!(AudioDataHeader::try_from(0xc0), Err(ParseError::SoundFormat(12)));
    assert_eq!(AudioDataHeader::try_from(0xdf), Err(ParseError::SoundFormat(13)));
    assert_eq!(SoundRate::try_from(4), Err(ParseError::SoundRate(4)));
    assert_eq!(SoundSize::try_from(2), Err(ParseError::SoundSize(2)));
    assert_eq!(SoundType::try_from(2), Err(ParseError::SoundType(2)));
    assert_eq!(SoundFormat::try_from(14), Ok(SoundFormat::MP38kHz));
}

#[test]
fn video_header_codes() {
    let h = VideoDataHeader { frame_type: VideoFrameType::KeyFrame, codec_id: VideoCodecId::AVC };
    assert_eq!(h.to_byte(), 0x17);
    assert_eq!(VideoDataHeader::try_from(0x17), Ok(h));
    assert_eq!(VideoDataHeader::try_from(0x07), Err(ParseError::VideoFrameType(0)));
    assert_eq!(VideoDataHeader::try_from(0x67), Err(ParseError::VideoFrameType(6)));
    assert_eq!(VideoDataHeader::try_from(0x10), Err(ParseError::VideoCodecId(0)));
    assert_eq!(VideoDataHeader::try_from(0x1d), Err(ParseError::VideoCodecId(13)));
    assert_eq!(VideoDataHeader::try_from(0x0d), Err(ParseError::VideoFrameType(0)));
}

#[test]
fn seek_flag_codes() {
    assert_eq!(SeekFlag::try_from(0), Ok(SeekFlag::Start));
    assert_eq!(SeekFlag::try_from(1), Ok(SeekFlag::End));
    assert_eq!(SeekFlag::try_from(2), Err(ParseError::SeekFlag(2)));
    assert_eq!(SeekFlag::End.code(), 1);
}
