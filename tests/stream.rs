use flv::{
    AudioDataHeader, Error, FlvReader, FlvWriter, Header, MemorySource, ParseError, ReadError,
    SoundFormat, SoundRate, SoundSize, SoundType, TagHeader, TagType, VideoCodecId,
    VideoDataHeader, VideoFrameType,
};

fn video_header() -> VideoDataHeader {
    VideoDataHeader { frame_type: VideoFrameType::KeyFrame, codec_id: VideoCodecId::AVC }
}

fn audio_header() -> AudioDataHeader {
    AudioDataHeader {
        sound_format: SoundFormat::MP3,
        sound_rate: SoundRate::R22kHz,
        sound_size: SoundSize::S16Bit,
        sound_type: SoundType::Mono,
    }
}

#[test]
fn write_header_then_marker() {
    let mut w = FlvWriter::new(Vec::new());
    let h = Header { version: 1, audio_flag: true, video_flag: true, data_offset: 9 };
    assert_eq!(w.write_header(h).unwrap(), 13);
    assert_eq!(w.into_inner(), vec![b'F', b'L', b'V', 1, 5, 0, 0, 0, 9, 0, 0, 0, 0]);
}

#[test]
fn write_video_tag_frames_payload() {
    let mut w = FlvWriter::new(Vec::new());
    assert_eq!(w.write_video_tag(0x10, video_header(), &[1, 2, 3]).unwrap(), 15);
    assert_eq!(
        w.into_inner(),
        vec![9, 0, 0, 4, 0, 0, 0x10, 0, 0, 0, 0, 0x17, 1, 2, 3]
    );
}

#[test]
fn write_audio_tag_frames_payload() {
    let mut w = FlvWriter::new(Vec::new());
    assert_eq!(w.write_audio_tag(1, audio_header(), &[]).unwrap(), 12);
    assert_eq!(w.into_inner(), vec![8, 0, 0, 1, 0, 0, 1, 0, 0, 0, 0, 0x2a]);
}

#[test]
fn writer_data_size_limit() {
    let ok_payload = vec![0u8; 0x00ff_fffe];
    let mut w = FlvWriter::new(Vec::new());
    assert_eq!(w.write_video_tag(0, video_header(), &ok_payload).unwrap(), 11 + 0x00ff_ffff);
    let out = w.into_inner();
    assert_eq!(&out[1..4], &[0xff, 0xff, 0xff]);

    let big_payload = vec![0u8; 0x00ff_ffff];
    let mut w = FlvWriter::new(Vec::new());
    match w.write_audio_tag(0, audio_header(), &big_payload) {
        Err(Error::DataSize(n)) => assert_eq!(n, 0x00ff_ffff),
        other => panic!("unexpected {:?}", other),
    }
    assert!(w.into_inner().is_empty());
}

#[test]
fn read_back_written_stream() {
    let mut w = FlvWriter::new(Vec::new());
    let h = Header { version: 1, audio_flag: false, video_flag: true, data_offset: 9 };
    w.write_header(h).unwrap();
    w.write_video_tag(40, video_header(), &[7, 8]).unwrap();
    let bytes = w.into_inner();

    let mut r = FlvReader::new(MemorySource::new(bytes));
    assert_eq!(r.read_header().unwrap(), h);
    assert_eq!(r.read_pre_tag_size().unwrap(), 0);
    let th = r.read_tag_header().unwrap().unwrap();
    assert_eq!(th, TagHeader { tag_type: TagType::Video, data_size: 3, timestamp: 40 });
    assert_eq!(r.read_video_data_header().unwrap(), video_header());
    assert_eq!(r.read_data(th.data_size as usize).unwrap(), vec![7, 8]);
    assert!(matches!(r.read_tag_header(), Ok(None)));
}

#[test]
fn read_tag_header_end_and_truncation() {
    let mut r = FlvReader::new(MemorySource::new(Vec::new()));
    assert!(matches!(r.read_tag_header(), Ok(None)));
    for n in 1..11usize {
        let mut r = FlvReader::new(MemorySource::new(vec![9u8; n]));
        match r.read_tag_header() {
            Err(Error::Io(e)) => assert_eq!(e.kind(), std::io::ErrorKind::UnexpectedEof),
            other => panic!("unexpected {:?}", other),
        }
    }
}

#[test]
fn read_pre_tag_size_short_is_error() {
    let mut r = FlvReader::new(MemorySource::new(Vec::new()));
    assert!(matches!(r.read_pre_tag_size(), Err(Error::Read(ReadError::Eof))));
    let mut r = FlvReader::new(MemorySource::new(vec![0, 0]));
    assert!(matches!(r.read_pre_tag_size(), Err(Error::Io(_))));
    let mut r = FlvReader::new(MemorySource::new(vec![0, 1, 2, 3]));
    assert_eq!(r.read_pre_tag_size().unwrap(), 0x0001_0203);
}

#[test]
fn read_header_parse_error() {
    let mut r = FlvReader::new(MemorySource::new(vec![b'F', b'L', b'V', 1, 5, 0, 0, 0, 8]));
    assert!(matches!(r.read_header(), Err(Error::Parse(ParseError::HeaderDataOffset(8)))));
}

#[test]
fn read_sub_headers_reject_codes() {
    let mut r = FlvReader::new(MemorySource::new(vec![0xd0, 0x18, 0xaf]));
    assert!(matches!(r.read_audio_data_header(), Err(Error::Parse(ParseError::SoundFormat(13)))));
    assert!(matches!(r.read_video_data_header(), Err(Error::Parse(ParseError::VideoCodecId(8)))));
    let a = r.read_audio_data_header().unwrap();
    assert_eq!(a.sound_format, SoundFormat::AAC);
}

#[test]
fn read_end_marker_checks_value() {
    let mut r = FlvReader::new(MemorySource::new(vec![0, 0, 9, 0, 0, 8]));
    assert!(r.read_end_marker().is_ok());
    assert!(matches!(r.read_end_marker(), Err(Error::Other(_))));
}

#[test]
fn read_data_excludes_sub_header_byte() {
    let mut r = FlvReader::new(MemorySource::new(vec![1, 2, 3, 4]));
    assert_eq!(r.read_data(3).unwrap(), vec![1, 2]);
    assert_eq!(r.read_data(0).unwrap(), Vec::<u8>::new());
    assert!(matches!(r.read_data(4), Err(Error::Io(_))));
}
