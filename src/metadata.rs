use vstd::prelude::*;
use vstd::string::StringSliceAdditionalSpecFns;
use vstd::utf8::{decode_utf8, pop_first_scalar, valid_first_scalar, valid_utf8};

use crate::error::Error;
use crate::reader::unexpected_eof;
use crate::tag::{byte_of, lemma_bytes_recompose};

verus! {

/// Relies on String::from_utf8: succeeds exactly on UTF-8 bytes, with the
/// characters they encode.
#[verifier::external_body]
fn utf8_string(bytes: &[u8]) -> (r: Option<String>)
    ensures
        r is Some <==> valid_utf8(bytes@),
        r is Some ==> r->Some_0@ == decode_utf8(bytes@),
{
    String::from_utf8(bytes.to_vec()).ok()
}

pub open spec fn be16(b: Seq<u8>, p: int) -> int {
    b[p] as int * 0x100 + b[p + 1] as int
}

pub open spec fn be24(b: Seq<u8>, p: int) -> int {
    b[p] as int * 0x10000 + b[p + 1] as int * 0x100 + b[p + 2] as int
}

pub open spec fn be32(b: Seq<u8>, p: int) -> int {
    b[p] as int * 0x1000000 + b[p + 1] as int * 0x10000 + b[p + 2] as int * 0x100
        + b[p + 3] as int
}

/// Eight bytes read big-endian: the bit pattern of an IEEE-754 double.
pub open spec fn be64(b: Seq<u8>, p: int) -> int {
    be32(b, p) * 0x1_0000_0000 + be32(b, p + 4)
}

/// The arrays of the "keyframes" object, each double kept as its IEEE-754
/// bit pattern.
#[derive(Debug, Clone)]
pub struct Keyframes {
    /// Keyframe times in seconds.
    pub times: Vec<u64>,
    /// Keyframe byte offsets.
    pub filepositions: Vec<u64>,
}

/// The onMetaData record; each double is kept as its IEEE-754 bit pattern
/// (`f64::to_bits`), and fields whose key is absent stay zero, false or empty.
#[derive(Debug, Clone)]
pub struct MetaData {
    pub duration: u64,
    pub width: u64,
    pub height: u64,
    pub video_data_rate: u64,
    pub framerate: u64,
    pub video_codec_id: u64,
    pub audio_date_rate: u64,
    pub audio_sample_rate: u64,
    pub audio_sample_size: u64,
    pub stereo: bool,
    pub audio_codec_id: u64,
    pub major_brand: String,
    pub minor_version: String,
    pub compatible_brands: String,
    pub encoder: String,
    pub filesize: u64,
    pub has_video: bool,
    pub has_keyframes: bool,
    pub has_audio: bool,
    pub has_metadata: bool,
    pub can_seek_to_end: bool,
    pub data_size: u64,
    pub video_size: u64,
    pub audio_size: u64,
    pub last_timestamp: u64,
    pub last_keyframe_timestamp: u64,
    pub last_keyframe_location: u64,
    pub keyframes: Option<Keyframes>,
}

/// The value of a `MetaData`, with strings as characters and the keyframe
/// arrays as (times, filepositions).
pub struct MetaDataView {
    pub duration: u64,
    pub width: u64,
    pub height: u64,
    pub video_data_rate: u64,
    pub framerate: u64,
    pub video_codec_id: u64,
    pub audio_date_rate: u64,
    pub audio_sample_rate: u64,
    pub audio_sample_size: u64,
    pub stereo: bool,
    pub audio_codec_id: u64,
    pub major_brand: Seq<char>,
    pub minor_version: Seq<char>,
    pub compatible_brands: Seq<char>,
    pub encoder: Seq<char>,
    pub filesize: u64,
    pub has_video: bool,
    pub has_keyframes: bool,
    pub has_audio: bool,
    pub has_metadata: bool,
    pub can_seek_to_end: bool,
    pub data_size: u64,
    pub video_size: u64,
    pub audio_size: u64,
    pub last_timestamp: u64,
    pub last_keyframe_timestamp: u64,
    pub last_keyframe_location: u64,
    pub keyframes: Option<(Seq<u64>, Seq<u64>)>,
}

impl View for MetaData {
    type V = MetaDataView;

    open spec fn view(&self) -> MetaDataView {
        MetaDataView {
            duration: self.duration,
            width: self.width,
            height: self.height,
            video_data_rate: self.video_data_rate,
            framerate: self.framerate,
            video_codec_id: self.video_codec_id,
            audio_date_rate: self.audio_date_rate,
            audio_sample_rate: self.audio_sample_rate,
            audio_sample_size: self.audio_sample_size,
            stereo: self.stereo,
            audio_codec_id: self.audio_codec_id,
            major_brand: self.major_brand@,
            minor_version: self.minor_version@,
            compatible_brands: self.compatible_brands@,
            encoder: self.encoder@,
            filesize: self.filesize,
            has_video: self.has_video,
            has_keyframes: self.has_keyframes,
            has_audio: self.has_audio,
            has_metadata: self.has_metadata,
            can_seek_to_end: self.can_seek_to_end,
            data_size: self.data_size,
            video_size: self.video_size,
            audio_size: self.audio_size,
            last_timestamp: self.last_timestamp,
            last_keyframe_timestamp: self.last_keyframe_timestamp,
            last_keyframe_location: self.last_keyframe_location,
            keyframes: match self.keyframes {
                Some(k) => Some((k.times@, k.filepositions@)),
                None => None,
            },
        }
    }
}

/// The record before any entry: zero, false, empty, and no keyframes.
pub open spec fn empty_metadata() -> MetaDataView {
    MetaDataView {
        duration: 0,
        width: 0,
        height: 0,
        video_data_rate: 0,
        framerate: 0,
        video_codec_id: 0,
        audio_date_rate: 0,
        audio_sample_rate: 0,
        audio_sample_size: 0,
        stereo: false,
        audio_codec_id: 0,
        major_brand: Seq::empty(),
        minor_version: Seq::empty(),
        compatible_brands: Seq::empty(),
        encoder: Seq::empty(),
        filesize: 0,
        has_video: false,
        has_keyframes: false,
        has_audio: false,
        has_metadata: false,
        can_seek_to_end: false,
        data_size: 0,
        video_size: 0,
        audio_size: 0,
        last_timestamp: 0,
        last_keyframe_timestamp: 0,
        last_keyframe_location: 0,
        keyframes: None,
    }
}

/// The record after a double entry: a known key sets its field, any other is dropped.
#[verifier::opaque]
pub open spec fn with_double(m: MetaDataView, key: Seq<u8>, v: u64) -> MetaDataView {
    if key == "duration".spec_bytes() {
        MetaDataView { duration: v, ..m }
    } else if key == "width".spec_bytes() {
        MetaDataView { width: v, ..m }
    } else if key == "height".spec_bytes() {
        MetaDataView { height: v, ..m }
    } else if key == "videodatarate".spec_bytes() {
        MetaDataView { video_data_rate: v, ..m }
    } else if key == "framerate".spec_bytes() {
        MetaDataView { framerate: v, ..m }
    } else if key == "videocodecid".spec_bytes() {
        MetaDataView { video_codec_id: v, ..m }
    } else if key == "audiodatarate".spec_bytes() {
        MetaDataView { audio_date_rate: v, ..m }
    } else if key == "audiosamplerate".spec_bytes() {
        MetaDataView { audio_sample_rate: v, ..m }
    } else if key == "audiosamplesize".spec_bytes() {
        MetaDataView { audio_sample_size: v, ..m }
    } else if key == "audiocodecid".spec_bytes() {
        MetaDataView { audio_codec_id: v, ..m }
    } else if key == "filesize".spec_bytes() {
        MetaDataView { filesize: v, ..m }
    } else if key == "datasize".spec_bytes() {
        MetaDataView { data_size: v, ..m }
    } else if key == "videosize".spec_bytes() {
        MetaDataView { video_size: v, ..m }
    } else if key == "audiosize".spec_bytes() {
        MetaDataView { audio_size: v, ..m }
    } else if key == "lasttimestamp".spec_bytes() {
        MetaDataView { last_timestamp: v, ..m }
    } else if key == "lastkeyframetimestamp".spec_bytes() {
        MetaDataView { last_keyframe_timestamp: v, ..m }
    } else if key == "lastkeyframelocation".spec_bytes() {
        MetaDataView { last_keyframe_location: v, ..m }
    } else {
        m
    }
}

/// The record after a boolean entry.
#[verifier::opaque]
pub open spec fn with_bool(m: MetaDataView, key: Seq<u8>, v: bool) -> MetaDataView {
    if key == "stereo".spec_bytes() {
        MetaDataView { stereo: v, ..m }
    } else if key == "hasVideo".spec_bytes() {
        MetaDataView { has_video: v, ..m }
    } else if key == "hasKeyframes".spec_bytes() {
        MetaDataView { has_keyframes: v, ..m }
    } else if key == "hasAudio".spec_bytes() {
        MetaDataView { has_audio: v, ..m }
    } else if key == "hasMetadata".spec_bytes() {
        MetaDataView { has_metadata: v, ..m }
    } else if key == "canSeekToEnd".spec_bytes() {
        MetaDataView { can_seek_to_end: v, ..m }
    } else {
        m
    }
}

/// The record after a string entry.
#[verifier::opaque]
pub open spec fn with_text(m: MetaDataView, key: Seq<u8>, v: Seq<char>) -> MetaDataView {
    if key == "major_brand".spec_bytes() {
        MetaDataView { major_brand: v, ..m }
    } else if key == "minor_version".spec_bytes() {
        MetaDataView { minor_version: v, ..m }
    } else if key == "compatible_brands".spec_bytes() {
        MetaDataView { compatible_brands: v, ..m }
    } else if key == "encoder".spec_bytes() {
        MetaDataView { encoder: v, ..m }
    } else {
        m
    }
}

/// How decoding a metadata payload fails.
#[derive(Debug, Clone, Copy, PartialEq, Eq, Structural)]
pub enum MetaFailure {
    /// The payload ends inside a field.
    Truncated,
    /// A type marker is not the one the grammar expects: (expected, found).
    Marker(u8, u8),
    /// An entry value has a type marker that is not decoded.
    Unimplemented(u8),
    /// A key or a string value is not UTF-8.
    BadText,
    /// A name or an end-of-object marker is not the one the grammar expects.
    Grammar,
}

/// The error that reports a failure of the given kind.
pub open spec fn fails_as(e: Error, f: MetaFailure) -> bool {
    match f {
        MetaFailure::Truncated => e is Io,
        MetaFailure::Marker(expected, found) => e == Error::Marker(expected, found),
        MetaFailure::Unimplemented(marker) => e == Error::Unimplemented(marker),
        MetaFailure::BadText => e is Utf8,
        MetaFailure::Grammar => e is Other,
    }
}

/// Where the bytes of the length-prefixed string at `p` start and end.
pub open spec fn string_at(b: Seq<u8>, p: int) -> Result<(int, int), MetaFailure> {
    if p + 2 <= b.len() && p + 2 + be16(b, p) <= b.len() {
        Ok((p + 2, p + 2 + be16(b, p)))
    } else {
        Err(MetaFailure::Truncated)
    }
}

/// `count` doubles, each after a zero type marker, appended to `acc`; and the
/// position after them.
pub open spec fn doubles_at(b: Seq<u8>, p: int, count: nat, acc: Seq<u64>) -> Result<
    (Seq<u64>, int),
    MetaFailure,
>
    decreases count,
{
    if count == 0 {
        Ok((acc, p))
    } else if p + 9 > b.len() {
        Err(MetaFailure::Truncated)
    } else if b[p] != 0 {
        Err(MetaFailure::Marker(0, b[p]))
    } else {
        doubles_at(b, p + 9, (count - 1) as nat, acc.push(be64(b, p + 1) as u64))
    }
}

/// A strict array of doubles: marker 10, a 4-byte count, then the doubles.
pub open spec fn array_at(b: Seq<u8>, p: int) -> Result<(Seq<u64>, int), MetaFailure> {
    if p + 5 > b.len() {
        Err(MetaFailure::Truncated)
    } else if b[p] != 10 {
        Err(MetaFailure::Marker(10, b[p]))
    } else {
        doubles_at(b, p + 5, be32(b, p + 1) as nat, Seq::empty())
    }
}

/// The "keyframes" object: "filepositions" then "times", each a strict array
/// of doubles, then the end-of-object marker 9. Gives (times, filepositions).
pub open spec fn keyframes_at(b: Seq<u8>, p: int) -> Result<((Seq<u64>, Seq<u64>), int), MetaFailure> {
    match string_at(b, p) {
        Err(f) => Err(f),
        Ok((s1, e1)) => if b.subrange(s1, e1) != "filepositions".spec_bytes() {
            Err(MetaFailure::Grammar)
        } else {
            match array_at(b, e1) {
                Err(f) => Err(f),
                Ok((positions, q)) => match string_at(b, q) {
                    Err(f) => Err(f),
                    Ok((s2, e2)) => if b.subrange(s2, e2) != "times".spec_bytes() {
                        Err(MetaFailure::Grammar)
                    } else {
                        match array_at(b, e2) {
                            Err(f) => Err(f),
                            Ok((times, r)) => if r + 3 > b.len() {
                                Err(MetaFailure::Truncated)
                            } else if be24(b, r) != 9 {
                                Err(MetaFailure::Grammar)
                            } else {
                                Ok(((times, positions), r + 3))
                            },
                        }
                    },
                },
            }
        },
    }
}

/// One entry at `p`: a UTF-8 key, a type marker, and a value of that type.
/// Marker 0 is a double, 1 a boolean, 2 a string, 3 the "keyframes" object
/// (under that key only); any other marker is not decoded.
#[verifier::opaque]
pub open spec fn entry_at(b: Seq<u8>, p: int, m: MetaDataView) -> Result<(MetaDataView, int), MetaFailure> {
    match string_at(b, p) {
        Err(f) => Err(f),
        Ok((ks, ke)) => {
            let key = b.subrange(ks, ke);
            let q = ke + 1;
            if !valid_utf8(key) {
                Err(MetaFailure::BadText)
            } else if ke + 1 > b.len() {
                Err(MetaFailure::Truncated)
            } else if b[ke] == 0 {
                if q + 8 <= b.len() {
                    Ok((with_double(m, key, be64(b, q) as u64), q + 8))
                } else {
                    Err(MetaFailure::Truncated)
                }
            } else if b[ke] == 1 {
                if q + 1 <= b.len() {
                    Ok((with_bool(m, key, b[q] != 0), q + 1))
                } else {
                    Err(MetaFailure::Truncated)
                }
            } else if b[ke] == 2 {
                match string_at(b, q) {
                    Err(f) => Err(f),
                    Ok((s, e)) => if valid_utf8(b.subrange(s, e)) {
                        Ok((with_text(m, key, decode_utf8(b.subrange(s, e))), e))
                    } else {
                        Err(MetaFailure::BadText)
                    },
                }
            } else if b[ke] == 3 && key == "keyframes".spec_bytes() {
                match keyframes_at(b, q) {
                    Err(f) => Err(f),
                    Ok((k, r)) => Ok((MetaDataView { keyframes: Some(k), ..m }, r)),
                }
            } else {
                Err(MetaFailure::Unimplemented(b[ke]))
            }
        },
    }
}

/// The bytes at `p` are the end-of-object marker 0, 0, 9.
pub open spec fn end_marker_at(b: Seq<u8>, p: int) -> bool {
    p + 3 <= b.len() && be24(b, p) == 9
}

/// The entries from `p` up to the end-of-object marker, applied in order to
/// `m`; and the position after the marker. Each entry moves forward.
pub open spec fn entries_at(b: Seq<u8>, p: int, m: MetaDataView) -> Result<(MetaDataView, int), MetaFailure>
    decreases b.len() - p,
{
    if end_marker_at(b, p) {
        Ok((m, p + 3))
    } else {
        match entry_at(b, p, m) {
            Err(f) => Err(f),
            Ok((m2, q)) => if p < q <= b.len() {
                entries_at(b, q, m2)
            } else {
                Err(MetaFailure::Grammar)
            },
        }
    }
}

/// Where the entries start: after the string marker 2, the name "onMetaData",
/// the associative array marker 8, and the 4-byte entry count, which is only
/// informational.
pub open spec fn entries_start(b: Seq<u8>) -> Result<int, MetaFailure> {
    if b.len() < 1 {
        Err(MetaFailure::Truncated)
    } else if b[0] != 2 {
        Err(MetaFailure::Marker(2, b[0]))
    } else {
        match string_at(b, 1) {
            Err(f) => Err(f),
            Ok((s, e)) => if b.subrange(s, e) != "onMetaData".spec_bytes() {
                Err(MetaFailure::Grammar)
            } else if e + 5 > b.len() {
                Err(MetaFailure::Truncated)
            } else if b[e] != 8 {
                Err(MetaFailure::Marker(8, b[e]))
            } else {
                Ok(e + 5)
            },
        }
    }
}

/// The metadata that a script-data payload holds: the string "onMetaData",
/// an associative array marker 8 with its entry count, then entries until the
/// end-of-object marker 0, 0, 9, whatever the count says.
pub open spec fn parse_metadata(b: Seq<u8>) -> Result<MetaDataView, MetaFailure> {
    match entries_start(b) {
        Err(f) => Err(f),
        Ok(p) => match entries_at(b, p, empty_metadata()) {
            Err(f) => Err(f),
            Ok((m, _)) => Ok(m),
        },
    }
}

/// A length-prefixed string as written: two length bytes, then the bytes.
pub open spec fn amf_string(s: Seq<u8>) -> Seq<u8> {
    seq![(s.len() / 0x100) as u8, (s.len() % 0x100) as u8] + s
}

/// Eight bytes holding `v` big-endian.
pub open spec fn u64_bytes(v: u64) -> Seq<u8> {
    let hi = v as int / 0x1_0000_0000;
    let lo = v as int % 0x1_0000_0000;
    seq![
        byte_of(hi, 3),
        byte_of(hi, 2),
        byte_of(hi, 1),
        byte_of(hi, 0),
        byte_of(lo, 3),
        byte_of(lo, 2),
        byte_of(lo, 1),
        byte_of(lo, 0),
    ]
}

/// A double entry as written: key, marker 0, eight value bytes.
pub open spec fn double_entry(key: Seq<u8>, v: u64) -> Seq<u8> {
    amf_string(key) + seq![0u8] + u64_bytes(v)
}

/// A boolean entry as written: key, marker 1, one value byte.
pub open spec fn bool_entry(key: Seq<u8>, v: bool) -> Seq<u8> {
    amf_string(key) + seq![1u8, if v { 1u8 } else { 0u8 }]
}

/// A string entry as written: key, marker 2, length-prefixed value.
pub open spec fn text_entry(key: Seq<u8>, v: Seq<u8>) -> Seq<u8> {
    amf_string(key) + seq![2u8] + amf_string(v)
}

/// An onMetaData payload whose associative array holds the given entries
/// (already written out), `count` of them.
pub open spec fn metadata_payload(count: u32, entries: Seq<u8>) -> Seq<u8> {
    seq![2u8] + amf_string("onMetaData".spec_bytes()) + seq![8u8] + seq![
        byte_of(count as int, 3),
        byte_of(count as int, 2),
        byte_of(count as int, 1),
        byte_of(count as int, 0),
    ] + entries + seq![0u8, 0u8, 9u8]
}

proof fn lemma_string_at(pre: Seq<u8>, s: Seq<u8>, post: Seq<u8>)
    requires
        s.len() < 0x10000,
    ensures
        string_at(pre + amf_string(s) + post, pre.len() as int) == Ok::<(int, int), MetaFailure>(
            (pre.len() + 2int, pre.len() + 2int + s.len()),
        ),
        (pre + amf_string(s) + post).subrange(pre.len() + 2int, pre.len() + 2int + s.len()) == s,
{
    let b = pre + amf_string(s) + post;
    let p = pre.len() as int;
    assert(b[p] == (s.len() / 0x100) as u8);
    assert(b[p + 1] == (s.len() % 0x100) as u8);
    assert(be16(b, p) == s.len());
    assert(b.subrange(p + 2, p + 2 + s.len()) =~= s);
}

proof fn lemma_be64(b: Seq<u8>, q: int, v: u64)
    requires
        0 <= q,
        q + 8 <= b.len(),
        b.subrange(q, q + 8) == u64_bytes(v),
    ensures
        be64(b, q) == v,
{
    let hi = v as int / 0x1_0000_0000;
    let lo = v as int % 0x1_0000_0000;
    lemma_bytes_recompose(hi);
    lemma_bytes_recompose(lo);
    assert(b[q] == u64_bytes(v)[0] && b[q + 1] == u64_bytes(v)[1] && b[q + 2] == u64_bytes(v)[2]
        && b[q + 3] == u64_bytes(v)[3]);
    assert(b[q + 4] == u64_bytes(v)[4] && b[q + 5] == u64_bytes(v)[5] && b[q + 6]
        == u64_bytes(v)[6] && b[q + 7] == u64_bytes(v)[7]);
    assert(be32(b, q) == hi);
    assert(be32(b, q + 4) == lo);
}

proof fn lemma_ascii_utf8(s: Seq<u8>)
    requires
        forall|i: int| 0 <= i < s.len() ==> s[i] < 0x80,
    ensures
        valid_utf8(s),
    decreases s.len(),
{
    if s.len() > 0 {
        let x = s[0];
        assert(((x & 0x7Fu8) as u32) <= 0x7F) by (bit_vector);
        assert(valid_first_scalar(s));
        let rest = s.subrange(1, s.len() as int);
        assert(pop_first_scalar(s) == rest);
        lemma_ascii_utf8(rest);
    }
}

/// The entry at `pre.len()` is not the end-of-object marker when its key is
/// not empty.
proof fn lemma_not_end(pre: Seq<u8>, key: Seq<u8>, post: Seq<u8>)
    requires
        0 < key.len() < 0x10000,
    ensures
        !end_marker_at(pre + amf_string(key) + post, pre.len() as int),
{
    let b = pre + amf_string(key) + post;
    let p = pre.len() as int;
    assert(b[p] == (key.len() / 0x100) as u8 && b[p + 1] == (key.len() % 0x100) as u8);
    assert(be24(b, p) >= 0x100);
}

proof fn lemma_double_entry(pre: Seq<u8>, key: Seq<u8>, v: u64, post: Seq<u8>, m: MetaDataView)
    requires
        0 < key.len() < 0x10000,
        valid_utf8(key),
    ensures
        entry_at(pre + double_entry(key, v) + post, pre.len() as int, m) == Ok::<
            (MetaDataView, int),
            MetaFailure,
        >((with_double(m, key, v), pre.len() + double_entry(key, v).len() as int)),
        !end_marker_at(pre + double_entry(key, v) + post, pre.len() as int),
{
    reveal(entry_at);
    let b = pre + double_entry(key, v) + post;
    let rest = seq![0u8] + u64_bytes(v) + post;
    assert(b =~= pre + amf_string(key) + rest);
    lemma_string_at(pre, key, rest);
    lemma_not_end(pre, key, rest);
    let ke = pre.len() + 2 + key.len() as int;
    assert(b[ke] == 0);
    assert(b.subrange(ke + 1, ke + 9) =~= u64_bytes(v));
    lemma_be64(b, ke + 1, v);
}

proof fn lemma_bool_entry(pre: Seq<u8>, key: Seq<u8>, v: bool, post: Seq<u8>, m: MetaDataView)
    requires
        0 < key.len() < 0x10000,
        valid_utf8(key),
    ensures
        entry_at(pre + bool_entry(key, v) + post, pre.len() as int, m) == Ok::<
            (MetaDataView, int),
            MetaFailure,
        >((with_bool(m, key, v), pre.len() + bool_entry(key, v).len() as int)),
        !end_marker_at(pre + bool_entry(key, v) + post, pre.len() as int),
{
    reveal(entry_at);
    let b = pre + bool_entry(key, v) + post;
    let rest = seq![1u8, if v { 1u8 } else { 0u8 }] + post;
    assert(b =~= pre + amf_string(key) + rest);
    lemma_string_at(pre, key, rest);
    lemma_not_end(pre, key, rest);
    let ke = pre.len() + 2 + key.len() as int;
    assert(b[ke] == 1);
    assert((b[ke + 1] != 0) == v);
}

proof fn lemma_text_entry(
    pre: Seq<u8>,
    key: Seq<u8>,
    v: Seq<u8>,
    post: Seq<u8>,
    m: MetaDataView,
)
    requires
        0 < key.len() < 0x10000,
        v.len() < 0x10000,
        valid_utf8(key),
        valid_utf8(v),
    ensures
        entry_at(pre + text_entry(key, v) + post, pre.len() as int, m) == Ok::<
            (MetaDataView, int),
            MetaFailure,
        >((with_text(m, key, decode_utf8(v)), pre.len() + text_entry(key, v).len() as int)),
        !end_marker_at(pre + text_entry(key, v) + post, pre.len() as int),
{
    reveal(entry_at);
    let b = pre + text_entry(key, v) + post;
    let rest = seq![2u8] + amf_string(v) + post;
    assert(b =~= pre + amf_string(key) + rest);
    lemma_string_at(pre, key, rest);
    lemma_not_end(pre, key, rest);
    let ke = pre.len() + 2 + key.len() as int;
    assert(b[ke] == 2);
    let pre2 = pre + amf_string(key) + seq![2u8];
    assert(b =~= pre2 + amf_string(v) + post);
    lemma_string_at(pre2, v, post);
}

/// Decoding an onMetaData payload whose entries are a duration (double),
/// stereo (boolean) and encoder (string) sets exactly those three fields,
/// whatever the entry count says; every other field keeps its zero, false or
/// empty value.
pub proof fn lemma_metadata_three_entries(count: u32, duration: u64, stereo: bool, encoder: Seq<u8>)
    requires
        encoder.len() < 0x10000,
        valid_utf8(encoder),
    ensures
        parse_metadata(
            metadata_payload(
                count,
                double_entry("duration".spec_bytes(), duration) + bool_entry(
                    "stereo".spec_bytes(),
                    stereo,
                ) + text_entry("encoder".spec_bytes(), encoder),
            ),
        ) == Ok::<MetaDataView, MetaFailure>(
            MetaDataView { duration, stereo, encoder: decode_utf8(encoder), ..empty_metadata() },
        ),
{
    reveal_strlit("onMetaData");
    reveal_strlit("duration");
    reveal_strlit("stereo");
    reveal_strlit("encoder");
    reveal_strlit("major_brand");
    reveal_strlit("minor_version");
    reveal_strlit("compatible_brands");
    broadcast use vstd::string::is_ascii_spec_bytes;
    assert(vstd::string::is_ascii("onMetaData"));
    assert(vstd::string::is_ascii("duration"));
    assert(vstd::string::is_ascii("stereo"));
    assert(vstd::string::is_ascii("encoder"));
    assert(vstd::string::is_ascii("major_brand"));
    assert(vstd::string::is_ascii("minor_version"));
    assert(vstd::string::is_ascii("compatible_brands"));
    let kd = "duration".spec_bytes();
    let ks = "stereo".spec_bytes();
    let ke = "encoder".spec_bytes();
    let name = "onMetaData".spec_bytes();
    assert(name.len() == 10);
    assert(kd.len() == 8);
    assert(ks.len() == 6);
    assert(ke.len() == 7);
    lemma_ascii_utf8(kd);
    lemma_ascii_utf8(ks);
    lemma_ascii_utf8(ke);
    assert(ke != "major_brand".spec_bytes());
    assert(ke != "minor_version".spec_bytes());
    assert(ke != "compatible_brands".spec_bytes());
    let d = double_entry(kd, duration);
    let s = bool_entry(ks, stereo);
    let t = text_entry(ke, encoder);
    let b = metadata_payload(count, d + s + t);
    let c = seq![
        byte_of(count as int, 3),
        byte_of(count as int, 2),
        byte_of(count as int, 1),
        byte_of(count as int, 0),
    ];
    let head = seq![2u8] + amf_string(name) + seq![8u8] + c;
    let tail = seq![0u8, 0u8, 9u8];
    assert(b =~= head + d + s + t + tail);
    // the name and the array marker
    assert(b =~= seq![2u8] + amf_string(name) + (seq![8u8] + c + d + s + t + tail));
    lemma_string_at(seq![2u8], name, seq![8u8] + c + d + s + t + tail);
    assert(b[13] == 8);
    assert(head.len() == 18);
    assert(entries_start(b) == Ok::<int, MetaFailure>(18));
    // the three entries, then the end marker
    let m0 = empty_metadata();
    assert(b =~= head + d + (s + t + tail));
    lemma_double_entry(head, kd, duration, s + t + tail, m0);
    let m1 = with_double(m0, kd, duration);
    assert(b =~= (head + d) + s + (t + tail));
    lemma_bool_entry(head + d, ks, stereo, t + tail, m1);
    let m2 = with_bool(m1, ks, stereo);
    assert(b =~= (head + d + s) + t + tail);
    lemma_text_entry(head + d + s, ke, encoder, tail, m2);
    let m3 = with_text(m2, ke, decode_utf8(encoder));
    let after_first = head.len() + d.len() as int;
    let after_second = after_first + s.len() as int;
    let end = after_second + t.len() as int;
    assert(b[end] == 0 && b[end + 1] == 0 && b[end + 2] == 9);
    assert(end_marker_at(b, end));
    assert(entries_at(b, end, m3) == Ok::<(MetaDataView, int), MetaFailure>((m3, end + 3)));
    assert(entries_at(b, after_second, m2) == entries_at(b, end, m3));
    assert(entries_at(b, after_first, m1) == entries_at(b, after_second, m2));
    assert(entries_at(b, 18, m0) == entries_at(b, after_first, m1));
    reveal(with_double);
    reveal(with_bool);
    reveal(with_text);
    assert(m3 == MetaDataView {
        duration,
        stereo,
        encoder: decode_utf8(encoder),
        ..empty_metadata()
    });
}

fn be_u16_at(b: &[u8], p: usize) -> (r: usize)
    requires
        p + 2 <= b@.len(),
    ensures
        r == be16(b@, p as int),
{
    (b[p] as usize) * 0x100 + b[p + 1] as usize
}

fn be_u24_at(b: &[u8], p: usize) -> (r: u32)
    requires
        p + 3 <= b@.len(),
    ensures
        r == be24(b@, p as int),
{
    (b[p] as u32) * 0x10000 + (b[p + 1] as u32) * 0x100 + b[p + 2] as u32
}

fn be_u32_at(b: &[u8], p: usize) -> (r: u32)
    requires
        p + 4 <= b@.len(),
    ensures
        r == be32(b@, p as int),
{
    (b[p] as u32) * 0x1000000 + (b[p + 1] as u32) * 0x10000 + (b[p + 2] as u32) * 0x100
        + b[p + 3] as u32
}

fn be_u64_at(b: &[u8], p: usize) -> (r: u64)
    requires
        p + 8 <= b@.len(),
    ensures
        r == be64(b@, p as int),
{
    (b[p] as u64) * 0x100_0000_0000_0000 + (b[p + 1] as u64) * 0x1_0000_0000_0000 + (b[p + 2] as u64)
        * 0x100_0000_0000 + (b[p + 3] as u64) * 0x1_0000_0000 + (b[p + 4] as u64) * 0x100_0000
        + (b[p + 5] as u64) * 0x1_0000 + (b[p + 6] as u64) * 0x100 + b[p + 7] as u64
}

fn truncated() -> (r: Error)
    ensures
        r is Io,
{
    Error::Io(unexpected_eof())
}

/// Whether the bytes `b[s..e]` are those of `name`.
fn key_is(b: &[u8], s: usize, e: usize, name: &str) -> (r: bool)
    requires
        s <= e <= b@.len(),
    ensures
        r == (b@.subrange(s as int, e as int) == name.spec_bytes()),
{
    let nb = name.as_bytes();
    if nb.len() != e - s {
        return false;
    }
    let mut i: usize = 0;
    while i < nb.len()
        invariant
            nb@ == name.spec_bytes(),
            nb@.len() == e - s,
            s <= e <= b@.len(),
            i <= nb@.len(),
            forall|j: int| 0 <= j < i ==> b@[s + j] == nb@[j],
        decreases nb@.len() - i,
    {
        if b[s + i] != nb[i] {
            assert(b@.subrange(s as int, e as int)[i as int] != nb@[i as int]);
            return false;
        }
        i = i + 1;
    }
    assert(b@.subrange(s as int, e as int) =~= nb@);
    true
}

fn copy_range(b: &[u8], s: usize, e: usize) -> (r: Vec<u8>)
    requires
        s <= e <= b@.len(),
    ensures
        r@ == b@.subrange(s as int, e as int),
{
    let mut out: Vec<u8> = Vec::new();
    let mut i: usize = s;
    while i < e
        invariant
            s <= i <= e <= b@.len(),
            out@ == b@.subrange(s as int, i as int),
        decreases e - i,
    {
        out.push(b[i]);
        i = i + 1;
        assert(out@ =~= b@.subrange(s as int, i as int));
    }
    out
}

/// The UTF-8 text of `b[s..e]`.
fn text(b: &[u8], s: usize, e: usize) -> (r: Result<String, Error>)
    requires
        s <= e <= b@.len(),
    ensures
        r is Ok <==> valid_utf8(b@.subrange(s as int, e as int)),
        r is Ok ==> r->Ok_0@ == decode_utf8(b@.subrange(s as int, e as int)),
        r is Err ==> r->Err_0 is Utf8,
{
    match utf8_string(&b[s..e]) {
        Some(t) => Ok(t),
        None => Err(Error::Utf8(copy_range(b, s, e))),
    }
}

/// Bounds of the length-prefixed string at `p`.
fn string_range(b: &[u8], p: usize) -> (r: Result<(usize, usize), Error>)
    requires
        p <= b@.len(),
    ensures
        match string_at(b@, p as int) {
            Ok((s, e)) => r is Ok && r->Ok_0.0 == s && r->Ok_0.1 == e,
            Err(f) => r is Err && fails_as(r->Err_0, f),
        },
{
    if b.len() - p < 2 {
        return Err(truncated());
    }
    let len = be_u16_at(b, p);
    if b.len() - (p + 2) < len {
        return Err(truncated());
    }
    Ok((p + 2, p + 2 + len))
}

/// The strict array of doubles at `p`, and the position after it.
fn double_array(b: &[u8], p: usize) -> (r: Result<(Vec<u64>, usize), Error>)
    requires
        p <= b@.len(),
    ensures
        match array_at(b@, p as int) {
            Ok((v, q)) => r is Ok && r->Ok_0.0@ == v && r->Ok_0.1 == q,
            Err(f) => r is Err && fails_as(r->Err_0, f),
        },
        r is Ok ==> p + 5 <= r->Ok_0.1 <= b@.len(),
{
    if b.len() - p < 5 {
        return Err(truncated());
    }
    if b[p] != 10 {
        return Err(Error::Marker(10, b[p]));
    }
    let count = be_u32_at(b, p + 1);
    let mut out: Vec<u64> = Vec::new();
    let mut pos: usize = p + 5;
    let mut i: u32 = 0;
    while i < count
        invariant
            p + 5 <= pos <= b@.len(),
            i <= count,
            count == be32(b@, p + 1),
            array_at(b@, p as int) == doubles_at(b@, pos as int, (count - i) as nat, out@),
        decreases count - i,
    {
        if b.len() - pos < 9 {
            return Err(truncated());
        }
        if b[pos] != 0 {
            return Err(Error::Marker(0, b[pos]));
        }
        let v = be_u64_at(b, pos + 1);
        out.push(v);
        pos = pos + 9;
        i = i + 1;
    }
    Ok((out, pos))
}

/// The "keyframes" object at `p`, and the position after its end marker.
fn keyframes_object(b: &[u8], p: usize) -> (r: Result<(Keyframes, usize), Error>)
    requires
        p <= b@.len(),
    ensures
        match keyframes_at(b@, p as int) {
            Ok((k, q)) => r is Ok && k == (r->Ok_0.0.times@, r->Ok_0.0.filepositions@) && r->Ok_0.1
                == q,
            Err(f) => r is Err && fails_as(r->Err_0, f),
        },
        r is Ok ==> p < r->Ok_0.1 <= b@.len(),
{
    let (s1, e1) = match string_range(b, p) {
        Ok(v) => v,
        Err(e) => return Err(e),
    };
    if !key_is(b, s1, e1, "filepositions") {
        return Err(Error::Other("invalid filepositions key"));
    }
    let (filepositions, q) = match double_array(b, e1) {
        Ok(v) => v,
        Err(e) => return Err(e),
    };
    let (s2, e2) = match string_range(b, q) {
        Ok(v) => v,
        Err(e) => return Err(e),
    };
    if !key_is(b, s2, e2, "times") {
        return Err(Error::Other("invalid times key"));
    }
    let (times, r) = match double_array(b, e2) {
        Ok(v) => v,
        Err(e) => return Err(e),
    };
    if b.len() - r < 3 {
        return Err(truncated());
    }
    if be_u24_at(b, r) != 9 {
        return Err(Error::Other("invalid end of object"));
    }
    Ok((Keyframes { times, filepositions }, r + 3))
}

impl MetaData {
    /// A record with every field zero, false or empty, and no keyframes.
    pub fn new() -> (r: MetaData)
        ensures
            r@ == empty_metadata(),
    {
        MetaData {
            duration: 0,
            width: 0,
            height: 0,
            video_data_rate: 0,
            framerate: 0,
            video_codec_id: 0,
            audio_date_rate: 0,
            audio_sample_rate: 0,
            audio_sample_size: 0,
            stereo: false,
            audio_codec_id: 0,
            major_brand: String::new(),
            minor_version: String::new(),
            compatible_brands: String::new(),
            encoder: String::new(),
            filesize: 0,
            has_video: false,
            has_keyframes: false,
            has_audio: false,
            has_metadata: false,
            can_seek_to_end: false,
            data_size: 0,
            video_size: 0,
            audio_size: 0,
            last_timestamp: 0,
            last_keyframe_timestamp: 0,
            last_keyframe_location: 0,
            keyframes: None,
        }
    }
}

impl Default for MetaData {
    fn default() -> (r: MetaData)
        ensures
            r@ == empty_metadata(),
    {
        MetaData::new()
    }
}

impl MetaData {
    fn set_double(&mut self, b: &[u8], s: usize, e: usize, v: u64)
        requires
            s <= e <= b@.len(),
        ensures
            final(self)@ == with_double(old(self)@, b@.subrange(s as int, e as int), v),
    {
        reveal(with_double);
        if key_is(b, s, e, "duration") {
            self.duration = v;
        } else if key_is(b, s, e, "width") {
            self.width = v;
        } else if key_is(b, s, e, "height") {
            self.height = v;
        } else if key_is(b, s, e, "videodatarate") {
            self.video_data_rate = v;
        } else if key_is(b, s, e, "framerate") {
            self.framerate = v;
        } else if key_is(b, s, e, "videocodecid") {
            self.video_codec_id = v;
        } else if key_is(b, s, e, "audiodatarate") {
            self.audio_date_rate = v;
        } else if key_is(b, s, e, "audiosamplerate") {
            self.audio_sample_rate = v;
        } else if key_is(b, s, e, "audiosamplesize") {
            self.audio_sample_size = v;
        } else if key_is(b, s, e, "audiocodecid") {
            self.audio_codec_id = v;
        } else if key_is(b, s, e, "filesize") {
            self.filesize = v;
        } else if key_is(b, s, e, "datasize") {
            self.data_size = v;
        } else if key_is(b, s, e, "videosize") {
            self.video_size = v;
        } else if key_is(b, s, e, "audiosize") {
            self.audio_size = v;
        } else if key_is(b, s, e, "lasttimestamp") {
            self.last_timestamp = v;
        } else if key_is(b, s, e, "lastkeyframetimestamp") {
            self.last_keyframe_timestamp = v;
        } else if key_is(b, s, e, "lastkeyframelocation") {
            self.last_keyframe_location = v;
        }
    }

    fn set_bool(&mut self, b: &[u8], s: usize, e: usize, v: bool)
        requires
            s <= e <= b@.len(),
        ensures
            final(self)@ == with_bool(old(self)@, b@.subrange(s as int, e as int), v),
    {
        reveal(with_bool);
        if key_is(b, s, e, "stereo") {
            self.stereo = v;
        } else if key_is(b, s, e, "hasVideo") {
            self.has_video = v;
        } else if key_is(b, s, e, "hasKeyframes") {
            self.has_keyframes = v;
        } else if key_is(b, s, e, "hasAudio") {
            self.has_audio = v;
        } else if key_is(b, s, e, "hasMetadata") {
            self.has_metadata = v;
        } else if key_is(b, s, e, "canSeekToEnd") {
            self.can_seek_to_end = v;
        }
    }

    fn set_text(&mut self, b: &[u8], s: usize, e: usize, v: String)
        requires
            s <= e <= b@.len(),
        ensures
            final(self)@ == with_text(old(self)@, b@.subrange(s as int, e as int), v@),
    {
        reveal(with_text);
        if key_is(b, s, e, "major_brand") {
            self.major_brand = v;
        } else if key_is(b, s, e, "minor_version") {
            self.minor_version = v;
        } else if key_is(b, s, e, "compatible_brands") {
            self.compatible_brands = v;
        } else if key_is(b, s, e, "encoder") {
            self.encoder = v;
        }
    }

    /// Decodes the entry at `p` into this record; gives the position after it.
    fn decode_entry(&mut self, b: &[u8], p: usize) -> (r: Result<usize, Error>)
        requires
            p <= b@.len(),
        ensures
            match entry_at(b@, p as int, old(self)@) {
                Ok((m, q)) => r is Ok && final(self)@ == m && r->Ok_0 == q,
                Err(f) => r is Err && fails_as(r->Err_0, f),
            },
            r is Ok ==> p < r->Ok_0 <= b@.len(),
    {
        reveal(entry_at);
        let (ks, ke) = match string_range(b, p) {
            Ok(v) => v,
            Err(e) => return Err(e),
        };
        match text(b, ks, ke) {
            Ok(_) => {},
            Err(e) => return Err(e),
        }
        if b.len() - ke < 1 {
            return Err(truncated());
        }
        let marker = b[ke];
        let q = ke + 1;
        if marker == 0 {
            if b.len() - q < 8 {
                return Err(truncated());
            }
            let v = be_u64_at(b, q);
            self.set_double(b, ks, ke, v);
            Ok(q + 8)
        } else if marker == 1 {
            if b.len() - q < 1 {
                return Err(truncated());
            }
            self.set_bool(b, ks, ke, b[q] != 0);
            Ok(q + 1)
        } else if marker == 2 {
            let (s, e) = match string_range(b, q) {
                Ok(v) => v,
                Err(e) => return Err(e),
            };
            let v = match text(b, s, e) {
                Ok(v) => v,
                Err(e) => return Err(e),
            };
            self.set_text(b, ks, ke, v);
            Ok(e)
        } else if marker == 3 && key_is(b, ks, ke, "keyframes") {
            let (k, r) = match keyframes_object(b, q) {
                Ok(v) => v,
                Err(e) => return Err(e),
            };
            self.keyframes = Some(k);
            Ok(r)
        } else {
            Err(Error::Unimplemented(marker))
        }
    }

    /// Decodes the payload of an onMetaData script-data tag. The entry count
    /// is read but not trusted: entries run up to the end-of-object marker.
    /// Keys that are not known are decoded and dropped; an unknown type marker
    /// stops decoding.
    pub fn decode(payload: &[u8]) -> (r: Result<MetaData, Error>)
        ensures
            match parse_metadata(payload@) {
                Ok(m) => r is Ok && r->Ok_0@ == m,
                Err(f) => r is Err && fails_as(r->Err_0, f),
            },
    {
        let b = payload;
        if b.len() < 1 {
            return Err(truncated());
        }
        if b[0] != 2 {
            return Err(Error::Marker(2, b[0]));
        }
        let (s, e) = match string_range(b, 1) {
            Ok(v) => v,
            Err(e) => return Err(e),
        };
        if !key_is(b, s, e, "onMetaData") {
            return Err(Error::Other("invalid onMetaData"));
        }
        if b.len() - e < 5 {
            return Err(truncated());
        }
        if b[e] != 8 {
            return Err(Error::Marker(8, b[e]));
        }
        let _count = be_u32_at(b, e + 1);
        let mut m = MetaData::new();
        let mut pos: usize = e + 5;
        assert(entries_start(b@) == Ok::<int, MetaFailure>(pos as int));
        loop
            invariant
                b@ == payload@,
                pos <= b@.len(),
                parse_metadata(b@) == match entries_at(b@, pos as int, m@) {
                    Err(f) => Err(f),
                    Ok((v, _)) => Ok::<MetaDataView, MetaFailure>(v),
                },
            decreases b@.len() - pos,
        {
            if b.len() - pos >= 3 && be_u24_at(b, pos) == 9 {
                return Ok(m);
            }
            let ghost before = m@;
            let step = m.decode_entry(b, pos);
            match step {
                Ok(q) => {
                    pos = q;
                },
                Err(err) => {
                    return Err(err);
                },
            }
        }
    }
}

} // verus!
