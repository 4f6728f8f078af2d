use flv::{Error, FlvReader, KeyframeIndex, MemorySource, MetaData};

fn push_str(out: &mut Vec<u8>, s: &str) {
    out.extend_from_slice(&(s.len() as u16).to_be_bytes());
    out.extend_from_slice(s.as_bytes());
}

fn header(count: u32) -> Vec<u8> {
    let mut out = vec![2u8];
    push_str(&mut out, "onMetaData");
    out.push(8);
    out.extend_from_slice(&count.to_be_bytes());
    out
}

fn double_entry(out: &mut Vec<u8>, key: &str, v: f64) {
    push_str(out, key);
    out.push(0);
    out.extend_from_slice(&v.to_bits().to_be_bytes());
}

fn bool_entry(out: &mut Vec<u8>, key: &str, v: bool) {
    push_str(out, key);
    out.push(1);
    out.push(v as u8);
}

fn string_entry(out: &mut Vec<u8>, key: &str, v: &str) {
    push_str(out, key);
    out.push(2);
    push_str(out, v);
}

fn double_array(out: &mut Vec<u8>, values: &[f64]) {
    out.push(10);
    out.extend_from_slice(&(values.len() as u32).to_be_bytes());
    for v in values {
        out.push(0);
        out.extend_from_slice(&v.to_bits().to_be_bytes());
    }
}

fn end(out: &mut Vec<u8>) {
    out.extend_from_slice(&[0, 0, 9]);
}

#[test]
fn metadata_sets_only_present_fields() {
    let mut b = header(3);
    double_entry(&mut b, "duration", 12.5);
    bool_entry(&mut b, "stereo", true);
    string_entry(&mut b, "encoder", "Lavf58");
    end(&mut b);
    let m = MetaData::decode(&b).unwrap();
    assert_eq!(f64::from_bits(m.duration), 12.5);
    assert!(m.stereo);
    assert_eq!(m.encoder, "Lavf58");
    assert_eq!(m.width, 0);
    assert_eq!(m.height, 0);
    assert_eq!(m.framerate, 0);
    assert_eq!(m.filesize, 0);
    assert!(!m.has_video && !m.has_audio && !m.has_keyframes && !m.can_seek_to_end);
    assert_eq!(m.major_brand, "");
    assert_eq!(m.compatible_brands, "");
    assert!(m.keyframes.is_none());
}

#[test]
fn metadata_unknown_keys_are_dropped() {
    let mut b = header(3);
    double_entry(&mut b, "somethingelse", 1.0);
    bool_entry(&mut b, "hasVideo", true);
    string_entry(&mut b, "comment", "x");
    end(&mut b);
    let m = MetaData::decode(&b).unwrap();
    assert!(m.has_video);
    assert_eq!(m.duration, 0);
    assert_eq!(m.encoder, "");
}

#[test]
fn metadata_keyframes_object() {
    let mut b = header(1);
    push_str(&mut b, "keyframes");
    b.push(3);
    push_str(&mut b, "filepositions");
    double_array(&mut b, &[13.0, 500.0, 1200.0]);
    push_str(&mut b, "times");
    double_array(&mut b, &[0.0, 1.0, 2.0]);
    end(&mut b);
    end(&mut b);
    let m = MetaData::decode(&b).unwrap();
    let k = m.keyframes.unwrap();
    let times: Vec<u32> = k.times.iter().map(|t| (f64::from_bits(*t) * 1000.0) as u32).collect();
    let positions: Vec<u64> = k.filepositions.iter().map(|p| f64::from_bits(*p) as u64).collect();
    assert_eq!(times, vec![0, 1000, 2000]);
    assert_eq!(positions, vec![13, 500, 1200]);
    let index = KeyframeIndex::from_pairs(&times, &positions);
    assert_eq!(index.seek(1500), Some((1000, 500)));
}

#[test]
fn metadata_rejects_bad_markers() {
    let mut b = header(1);
    push_str(&mut b, "duration");
    b.push(5);
    end(&mut b);
    assert!(matches!(MetaData::decode(&b), Err(Error::Unimplemented(5))));

    let mut b = header(0);
    b[0] = 3;
    assert!(matches!(MetaData::decode(&b), Err(Error::Marker(2, 3))));

    let mut b = vec![2u8];
    push_str(&mut b, "onMetaData");
    b.push(9);
    b.extend_from_slice(&[0, 0, 0, 0]);
    assert!(matches!(MetaData::decode(&b), Err(Error::Marker(8, 9))));

    let mut b = vec![2u8];
    push_str(&mut b, "onCuePoint");
    b.push(8);
    b.extend_from_slice(&[0, 0, 0, 0, 0, 0, 9]);
    assert!(matches!(MetaData::decode(&b), Err(Error::Other(_))));
}

#[test]
fn metadata_rejects_bad_keyframes() {
    let mut b = header(1);
    push_str(&mut b, "keyframes");
    b.push(3);
    push_str(&mut b, "times");
    double_array(&mut b, &[0.0]);
    assert!(matches!(MetaData::decode(&b), Err(Error::Other(_))));

    let mut b = header(1);
    push_str(&mut b, "keyframes");
    b.push(3);
    push_str(&mut b, "filepositions");
    b.push(10);
    b.extend_from_slice(&1u32.to_be_bytes());
    b.push(1);
    b.extend_from_slice(&[0; 8]);
    assert!(matches!(MetaData::decode(&b), Err(Error::Marker(0, 1))));

    let mut b = header(1);
    push_str(&mut b, "other");
    b.push(3);
    assert!(matches!(MetaData::decode(&b), Err(Error::Unimplemented(3))));
}

#[test]
fn metadata_end_marker_and_truncation() {
    let mut b = header(0);
    b.extend_from_slice(&[0, 0, 8]);
    assert!(matches!(MetaData::decode(&b), Err(Error::Unimplemented(8))));
    let b = header(1);
    assert!(matches!(MetaData::decode(&b), Err(Error::Io(_))));
}

#[test]
fn metadata_invalid_utf8() {
    let mut b = header(1);
    push_str(&mut b, "encoder");
    b.push(2);
    b.extend_from_slice(&[0, 2, 0xff, 0xfe]);
    end(&mut b);
    match MetaData::decode(&b) {
        Err(Error::Utf8(bytes)) => assert_eq!(bytes, vec![0xff, 0xfe]),
        other => panic!("unexpected {:?}", other),
    }
}

#[test]
fn reader_reads_metadata_tag() {
    let mut payload = header(1);
    double_entry(&mut payload, "width", 640.0);
    end(&mut payload);
    let len = payload.len();
    let mut r = FlvReader::new(MemorySource::new(payload));
    let m = r.read_metadata(len).unwrap();
    assert_eq!(f64::from_bits(m.width), 640.0);
}

#[test]
fn metadata_default_is_empty() {
    let m = MetaData::default();
    assert_eq!(m.duration, 0);
    assert!(!m.stereo);
    assert_eq!(m.encoder, "");
    assert!(m.keyframes.is_none());
}

#[test]
fn metadata_entry_count_is_informational() {
    for count in [0u32, 1, 2, 7, u32::MAX] {
        let mut b = header(count);
        double_entry(&mut b, "height", 480.0);
        bool_entry(&mut b, "hasAudio", true);
        end(&mut b);
        let m = MetaData::decode(&b).unwrap();
        assert_eq!(f64::from_bits(m.height), 480.0);
        assert!(m.has_audio);
    }
    let mut b = header(3);
    end(&mut b);
    let m = MetaData::decode(&b).unwrap();
    assert_eq!(m.height, 0);
}

#[test]
fn metadata_keyframes_end_marker_checked() {
    let mut b = header(1);
    push_str(&mut b, "keyframes");
    b.push(3);
    push_str(&mut b, "filepositions");
    double_array(&mut b, &[1.0]);
    push_str(&mut b, "times");
    double_array(&mut b, &[0.0]);
    b.extend_from_slice(&[0, 0, 8]);
    assert!(matches!(MetaData::decode(&b), Err(Error::Other(_))));
}
