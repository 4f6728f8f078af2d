use flv::KeyframeIndex;

fn sample() -> KeyframeIndex {
    KeyframeIndex::from_pairs(&[0, 1000, 2000], &[0, 500, 1200])
}

#[test]
fn seek_between_keyframes() {
    assert_eq!(sample().seek(1500), Some((1000, 500)));
}

#[test]
fn seek_exact_match() {
    assert_eq!(sample().seek(1000), Some((1000, 500)));
}

#[test]
fn seek_near_start() {
    assert_eq!(sample().seek(50), Some((0, 0)));
    assert_eq!(sample().seek(5000), Some((2000, 1200)));
}

#[test]
fn seek_empty_index() {
    let empty = KeyframeIndex::new();
    for t in [0u32, 1, 1000, u32::MAX] {
        assert_eq!(empty.seek(t), None);
    }
    let later = KeyframeIndex::from_pairs(&[100], &[7]);
    assert_eq!(later.seek(99), None);
}

#[test]
fn zip_stops_at_shorter_and_sorts() {
    let idx = KeyframeIndex::from_pairs(&[2000, 0, 1000, 3000], &[1200, 0, 500]);
    assert_eq!(idx.len(), 3);
    assert_eq!(idx.seek(0), Some((0, 0)));
    assert_eq!(idx.seek(1999), Some((1000, 500)));
    assert_eq!(idx.seek(2500), Some((2000, 1200)));
    assert_eq!(idx.seek(u32::MAX), Some((2000, 1200)));
}

#[test]
fn zip_repeated_timestamp_keeps_last() {
    let idx = KeyframeIndex::from_pairs(&[10, 10], &[1, 2]);
    assert_eq!(idx.len(), 1);
    assert_eq!(idx.seek(10), Some((10, 2)));
}
