use flv::{FlvIndexCache, FlvSeekFrom, IndexCache};

#[test]
fn no_op_cache_always_misses() {
    let mut cache = ();
    cache.put(FlvSeekFrom::Header, 0);
    assert_eq!(cache.get(FlvSeekFrom::Header), None);
}

#[test]
fn cache_records_and_overwrites() {
    let mut cache = FlvIndexCache::with_capacity(4);
    assert_eq!(cache.get(FlvSeekFrom::Tag(3)), None);
    cache.put(FlvSeekFrom::Header, 0);
    cache.put(FlvSeekFrom::MetaData, 13);
    cache.put(FlvSeekFrom::Tag(3), 400);
    cache.put(FlvSeekFrom::PreTagSize(3), 396);
    assert_eq!(cache.get(FlvSeekFrom::Header), Some(0));
    assert_eq!(cache.get(FlvSeekFrom::MetaData), Some(13));
    assert_eq!(cache.get(FlvSeekFrom::Tag(3)), Some(400));
    assert_eq!(cache.get(FlvSeekFrom::PreTagSize(3)), Some(396));
    assert_eq!(cache.get(FlvSeekFrom::Tag(4)), None);
    cache.put(FlvSeekFrom::Tag(3), 500);
    assert_eq!(cache.get(FlvSeekFrom::Tag(3)), Some(500));
    let empty = FlvIndexCache::new();
    assert_eq!(empty.get(FlvSeekFrom::Header), None);
}
