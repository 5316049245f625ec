//! RTP packet classification: what the relay reads out of raw packets
//! before an event enters a broadcast, and how it picks payload types for
//! the remote side.
use vstd::prelude::*;
use crate::AudioCodec;
use crate::VideoCodec;
use crate::extension::GeneralExtension;
use crate::extension::OneByteExtension;
use crate::extension::TwoByteExtension;
use crate::extension::lookup_entry;
use crate::extension::one_byte_entries;
use crate::extension::two_byte_entries;
use crate::h264::h264_keyframe;
use crate::source::AudioSourceEvent;
use crate::source::VideoSourceEvent;
use crate::vp8::VP8PayloadDescriptor;
use crate::vp8::parse_vp8;

verus! {

/// The header-extension element id carrying the audio level.
pub const LOCAL_EXT_ID_AUDIO_LEVEL: u8 = 1;

/// The payload type negotiated for opus voice.
pub const OPUS_VOICE_PAYLOAD_TYPE: u8 = 111;

/// The payload type negotiated for opus music.
pub const OPUS_MUSIC_PAYLOAD_TYPE: u8 = 112;

/// The payload type negotiated for H264 video.
pub const H264_PAYLOAD_TYPE: u8 = 126;

/// The payload type negotiated for VP8 video.
pub const VP8_PAYLOAD_TYPE: u8 = 120;

/// Every element a one-byte-layout extension yields carries at least one
/// byte of data.
proof fn lemma_one_byte_entries_nonempty(buf: Seq<u8>, i: int)
    ensures
        forall|k: int|
            0 <= k < one_byte_entries(buf, i).len() ==> (#[trigger] one_byte_entries(
                buf,
                i,
            )[k]).1.len() >= 1,
    decreases buf.len() - i,
{
    if i < 0 || i >= buf.len() {
    } else if buf[i] == 0 {
        lemma_one_byte_entries_nonempty(buf, i + 1);
        let e = one_byte_entries(buf, i);
        assert forall|k: int| 0 <= k < e.len() implies (#[trigger] e[k]).1.len() >= 1 by {
            assert(e[k] == one_byte_entries(buf, i + 1)[k]);
        }
    } else {
        let info = buf[i];
        let l = (info & 0xf) as int;
        if i + 2 + l > buf.len() {
        } else {
            lemma_one_byte_entries_nonempty(buf, i + l + 2);
            let e = one_byte_entries(buf, i);
            assert forall|k: int| 0 <= k < e.len() implies (#[trigger] e[k]).1.len() >= 1 by {
                if k == 0 {
                    assert(e[0].1 == buf.subrange(i + 1, i + 2 + l));
                } else {
                    assert(e[k] == one_byte_entries(buf, i + l + 2)[k - 1]);
                }
            }
        }
    }
}

/// Every element a two-byte-layout extension yields carries at least one
/// byte of data.
proof fn lemma_two_byte_entries_nonempty(buf: Seq<u8>, i: int)
    ensures
        forall|k: int|
            0 <= k < two_byte_entries(buf, i).len() ==> (#[trigger] two_byte_entries(
                buf,
                i,
            )[k]).1.len() >= 1,
    decreases buf.len() - i,
{
    if i < 0 || i + 1 >= buf.len() {
    } else if buf[i] == 0 {
        lemma_two_byte_entries_nonempty(buf, i + 1);
        let e = two_byte_entries(buf, i);
        assert forall|k: int| 0 <= k < e.len() implies (#[trigger] e[k]).1.len() >= 1 by {
            assert(e[k] == two_byte_entries(buf, i + 1)[k]);
        }
    } else {
        let l = buf[i + 1] as int;
        if i + 3 + l > buf.len() {
        } else {
            lemma_two_byte_entries_nonempty(buf, i + l + 3);
            let e = two_byte_entries(buf, i);
            assert forall|k: int| 0 <= k < e.len() implies (#[trigger] e[k]).1.len() >= 1 by {
                if k == 0 {
                    assert(e[0].1 == buf.subrange(i + 2, i + 3 + l));
                } else {
                    assert(e[k] == two_byte_entries(buf, i + l + 3)[k - 1]);
                }
            }
        }
    }
}

/// What a lookup finds is one of the entries.
proof fn lemma_lookup_entry_found(entries: Seq<(u8, Seq<u8>)>, id: u8)
    requires
        lookup_entry(entries, id) is Some,
    ensures
        exists|k: int|
            0 <= k < entries.len() && (#[trigger] entries[k]).1 == lookup_entry(
                entries,
                id,
            ).unwrap(),
    decreases entries.len(),
{
    if entries.len() == 0 {
    } else if entries[0].0 == id {
        assert(entries[0].1 == lookup_entry(entries, id).unwrap());
    } else {
        lemma_lookup_entry_found(entries.drop_first(), id);
        let k = choose|k: int|
            0 <= k < entries.drop_first().len() && (#[trigger] entries.drop_first()[k]).1
                == lookup_entry(entries.drop_first(), id).unwrap();
        assert(entries[k + 1].1 == lookup_entry(entries, id).unwrap());
    }
}

/// The audio-level element of a packet's header extension, as
/// `(voice activity, level)`: the element's first byte holds the activity
/// bit on top and the level in the remaining seven bits.
pub open spec fn audio_level_of(ext_id: u16, ext: Seq<u8>) -> Option<(bool, u8)> {
    let entries = if ext_id == 0xbede {
        one_byte_entries(ext, 0)
    } else if ext_id == 0x100 {
        two_byte_entries(ext, 0)
    } else {
        Seq::empty()
    };
    match lookup_entry(entries, LOCAL_EXT_ID_AUDIO_LEVEL) {
        Some(data) => Some(((data[0] & 0x80) > 0, data[0] & 0x7f)),
        None => None,
    }
}

/// Reads the audio-level element out of a packet's raw header extension:
/// the one-byte layout under id 0xBEDE, the two-byte layout under id
/// 0x100; anything else carries no level.
pub fn get_audio_extension(ext_id: u16, extension: &[u8]) -> (r: Option<(bool, u8)>)
    ensures
        r == audio_level_of(ext_id, extension@),
{
    let value: Option<&[u8]> = if ext_id == 0xbede {
        let ext = OneByteExtension::new(extension);
        ext.value(LOCAL_EXT_ID_AUDIO_LEVEL)
    } else if ext_id == 0x100 {
        let ext = TwoByteExtension::new(extension);
        ext.value(LOCAL_EXT_ID_AUDIO_LEVEL)
    } else {
        return None;
    };
    match value {
        Some(data) => {
            proof {
                if ext_id == 0xbede {
                    lemma_one_byte_entries_nonempty(extension@, 0);
                    lemma_lookup_entry_found(
                        one_byte_entries(extension@, 0),
                        LOCAL_EXT_ID_AUDIO_LEVEL,
                    );
                } else {
                    lemma_two_byte_entries_nonempty(extension@, 0);
                    lemma_lookup_entry_found(
                        two_byte_entries(extension@, 0),
                        LOCAL_EXT_ID_AUDIO_LEVEL,
                    );
                }
            }
            Some(((data[0] & 0x80) > 0, data[0] & 0x7f))
        },
        None => None,
    }
}

/// How an incoming audio packet is classified before it enters the
/// broadcast.
pub open spec fn classify_audio_spec(
    payload_type: u8,
    ext_id: u16,
    ext: Seq<u8>,
    payload: Vec<u8>,
    sequence: u16,
    marked: bool,
    timestamp: u32,
) -> Option<AudioSourceEvent> {
    match audio_level_of(ext_id, ext) {
        None => None,  // no level element: the packet is dropped
        Some((vad, level)) => {
            if level == 127 && !vad {
                None  // silence is not broadcast
            } else if payload_type == OPUS_MUSIC_PAYLOAD_TYPE {
                Some(
                    AudioSourceEvent::Packet {
                        timestamp,
                        sequence,
                        codec: AudioCodec::OpusMusic,
                        marked,
                        payload,
                        level: Some(level),
                    },
                )
            } else if payload_type == OPUS_VOICE_PAYLOAD_TYPE {
                Some(
                    AudioSourceEvent::Packet {
                        timestamp,
                        sequence,
                        codec: AudioCodec::Opus,
                        marked,
                        payload,
                        level: Some(level),
                    },
                )
            } else {
                None  // unexpected codec: the packet is dropped
            }
        },
    }
}

/// Classifies one received audio packet: packets without an audio-level
/// element, silent packets (level 127 without voice activity) and packets
/// of unknown codecs are dropped; the rest become broadcast events in the
/// already-virtualized numbering.
pub fn classify_audio_packet(
    payload_type: u8,
    ext_id: u16,
    extension: &[u8],
    payload: Vec<u8>,
    sequence: u16,
    marked: bool,
    timestamp: u32,
) -> (r: Option<AudioSourceEvent>)
    ensures
        r == classify_audio_spec(
            payload_type,
            ext_id,
            extension@,
            payload,
            sequence,
            marked,
            timestamp,
        ),
{
    let level = match get_audio_extension(ext_id, extension) {
        Some((vad, level)) => {
            if level == 127 && !vad {
                return None;
            }
            level
        },
        None => {
            return None;
        },
    };
    let codec = if payload_type == OPUS_MUSIC_PAYLOAD_TYPE {
        AudioCodec::OpusMusic
    } else if payload_type == OPUS_VOICE_PAYLOAD_TYPE {
        AudioCodec::Opus
    } else {
        return None;
    };
    Some(AudioSourceEvent::Packet { timestamp, sequence, codec, marked, payload, level: Some(level) })
}

/// Whether a VP8 packet starts a keyframe: a partition-start packet with
/// partition index zero whose frame header has the inter-frame bit clear
/// and the VP8 magic bytes in place.  `None` when the descriptor or frame
/// header is malformed.
pub open spec fn vp8_keyframe(buf: Seq<u8>) -> Option<bool> {
    match parse_vp8(buf) {
        None => None,
        Some(p) => {
            let payload = buf.subrange(p.6, buf.len() as int);
            if p.4 && p.5 == 0 {
                if payload.len() < 3 {
                    None
                } else if (payload[0] & 0x1) == 0 {
                    if payload.len() < 6 {
                        None
                    } else if !(payload[3] == 0x9d && payload[4] == 0x01 && payload[5] == 0x2a) {
                        None
                    } else if payload.len() < 10 {
                        None
                    } else {
                        Some(true)
                    }
                } else {
                    Some(false)
                }
            } else {
                Some(false)
            }
        },
    }
}

/// Decides whether a VP8 packet starts a keyframe; `None` when its
/// descriptor or frame header cannot be read.
pub fn vp8_is_keyframe(payload: &[u8]) -> (r: Option<bool>)
    ensures
        r == vp8_keyframe(payload@),
{
    let descriptor = match VP8PayloadDescriptor::parse(payload) {
        Some(d) => d,
        None => {
            return None;
        },
    };
    if descriptor.partition_start && descriptor.partition_index == 0 {
        let frame = descriptor.payload;
        if frame.len() < 3 {
            return None;
        }
        if (frame[0] & 0x1) == 0 {
            if frame.len() < 6 {
                return None;
            }
            if !(frame[3] == 0x9d && frame[4] == 0x01 && frame[5] == 0x2a) {
                return None;
            }
            if frame.len() < 10 {
                return None;
            }
            Some(true)
        } else {
            Some(false)
        }
    } else {
        Some(false)
    }
}

/// How an incoming video packet is classified before it enters the
/// broadcast: a malformed keyframe header downgrades to "not a keyframe";
/// unknown payload types are dropped.
pub open spec fn classify_video_spec(
    payload_type: u8,
    payload: Vec<u8>,
    sequence: u16,
    marked: bool,
    timestamp: u32,
) -> Option<VideoSourceEvent> {
    if payload_type == H264_PAYLOAD_TYPE {
        Some(
            VideoSourceEvent::Packet {
                payload,
                timestamp,
                marked,
                key_frame: (match h264_keyframe(payload@) {
                    Some(k) => k,
                    None => false,
                }),
                sequence,
                codec: VideoCodec::H264,
            },
        )
    } else if payload_type == VP8_PAYLOAD_TYPE {
        Some(
            VideoSourceEvent::Packet {
                payload,
                timestamp,
                marked,
                key_frame: (match vp8_keyframe(payload@) {
                    Some(k) => k,
                    None => false,
                }),
                sequence,
                codec: VideoCodec::VP8,
            },
        )
    } else {
        None
    }
}

/// Classifies one received video packet: codec and keyframe flag are read
/// from the payload; packets of unknown payload types are dropped.
pub fn classify_video_packet(
    payload_type: u8,
    payload: Vec<u8>,
    sequence: u16,
    marked: bool,
    timestamp: u32,
) -> (r: Option<VideoSourceEvent>)
    ensures
        r == classify_video_spec(payload_type, payload, sequence, marked, timestamp),
{
    if payload_type == H264_PAYLOAD_TYPE {
        let key_frame = match crate::h264::h264_is_keyframe(payload.as_slice()) {
            Some(k) => k,
            None => false,
        };
        Some(
            VideoSourceEvent::Packet {
                payload,
                timestamp,
                marked,
                key_frame,
                sequence,
                codec: VideoCodec::H264,
            },
        )
    } else if payload_type == VP8_PAYLOAD_TYPE {
        let key_frame = match vp8_is_keyframe(payload.as_slice()) {
            Some(k) => k,
            None => false,
        };
        Some(
            VideoSourceEvent::Packet {
                payload,
                timestamp,
                marked,
                key_frame,
                sequence,
                codec: VideoCodec::VP8,
            },
        )
    } else {
        None
    }
}

/// What the remote side told us about one codec it accepts.
#[derive(Clone, Copy, Debug, PartialEq, Eq, Structural)]
pub struct RemoteCodec {
    /// The payload type the remote expects for this codec.
    pub payload_type: u8,
    /// What the codec is.
    pub kind: RemoteCodecKind,
}

/// The codecs the relay can tell apart in a remote codec list.
#[derive(Clone, Copy, Debug, PartialEq, Eq, Structural)]
pub enum RemoteCodecKind {
    OpusMono,
    OpusStereo,
    H264,
    VP8,
    Other,
}

/// The first codec of the given kind in a remote list.
pub open spec fn first_codec_of(codecs: Seq<RemoteCodec>, kind: RemoteCodecKind) -> Option<u8>
    decreases codecs.len(),
{
    if codecs.len() == 0 {
        None
    } else if codecs[0].kind == kind {
        Some(codecs[0].payload_type)
    } else {
        first_codec_of(codecs.drop_first(), kind)
    }
}

/// The `(voice, music)` payload types to use against a remote codec list:
/// missing codecs fall back to the defaults, and a remote that offered
/// exactly one opus flavour gets both streams on it.
pub open spec fn opus_payload_types(codecs: Seq<RemoteCodec>) -> (u8, u8) {
    let mono = first_codec_of(codecs, RemoteCodecKind::OpusMono);
    let stereo = first_codec_of(codecs, RemoteCodecKind::OpusStereo);
    if codecs.len() == 1 {
        match mono {
            Some(pt) => (pt, pt),
            None => match stereo {
                Some(pt) => (pt, pt),
                None => (OPUS_VOICE_PAYLOAD_TYPE, OPUS_MUSIC_PAYLOAD_TYPE),
            },
        }
    } else {
        (
            (match mono {
                Some(pt) => pt,
                None => OPUS_VOICE_PAYLOAD_TYPE,
            }),
            (match stereo {
                Some(pt) => pt,
                None => OPUS_MUSIC_PAYLOAD_TYPE,
            }),
        )
    }
}

/// The first codec of a kind, as executable search.
fn find_first_codec(codecs: &[RemoteCodec], kind: RemoteCodecKind) -> (r: Option<u8>)
    ensures
        r == first_codec_of(codecs@, kind),
{
    let mut i: usize = 0;
    proof {
        assert(codecs@.subrange(0, codecs@.len() as int) =~= codecs@);
    }
    while i < codecs.len()
        invariant
            i <= codecs@.len(),
            first_codec_of(codecs@, kind) == first_codec_of(
                codecs@.subrange(i as int, codecs@.len() as int),
                kind,
            ),
        decreases codecs@.len() - i,
    {
        let ghost rest = codecs@.subrange(i as int, codecs@.len() as int);
        if codecs[i].kind == kind {
            proof {
                assert(rest[0] == codecs@[i as int]);
            }
            return Some(codecs[i].payload_type);
        }
        proof {
            assert(rest[0] == codecs@[i as int]);
            assert(rest.drop_first() =~= codecs@.subrange(i + 1, codecs@.len() as int));
        }
        i = i + 1;
    }
    proof {
        assert(codecs@.subrange(codecs@.len() as int, codecs@.len() as int) =~= Seq::<
            RemoteCodec,
        >::empty());
    }
    None
}

/// Picks the `(voice, music)` opus payload types to send with, from the
/// remote's codec list.
pub fn select_opus_payload_types(codecs: &[RemoteCodec]) -> (r: (u8, u8))
    ensures
        r == opus_payload_types(codecs@),
{
    let mono = find_first_codec(codecs, RemoteCodecKind::OpusMono);
    let stereo = find_first_codec(codecs, RemoteCodecKind::OpusStereo);
    if codecs.len() == 1 {
        match mono {
            Some(pt) => (pt, pt),
            None => match stereo {
                Some(pt) => (pt, pt),
                None => (OPUS_VOICE_PAYLOAD_TYPE, OPUS_MUSIC_PAYLOAD_TYPE),
            },
        }
    } else {
        (
            match mono {
                Some(pt) => pt,
                None => OPUS_VOICE_PAYLOAD_TYPE,
            },
            match stereo {
                Some(pt) => pt,
                None => OPUS_MUSIC_PAYLOAD_TYPE,
            },
        )
    }
}

/// Picks the `(H264, VP8)` payload types offered by the remote's codec
/// list; a missing entry means the remote cannot receive that codec.
pub fn select_video_payload_types(codecs: &[RemoteCodec]) -> (r: (Option<u8>, Option<u8>))
    ensures
        r.0 == first_codec_of(codecs@, RemoteCodecKind::H264),
        r.1 == first_codec_of(codecs@, RemoteCodecKind::VP8),
{
    (find_first_codec(codecs, RemoteCodecKind::H264), find_first_codec(
        codecs,
        RemoteCodecKind::VP8,
    ))
}

/// The payload type to tag an outgoing video packet with: the remote's
/// type for the stream's current codec, or `None` when the remote cannot
/// receive that codec (the packet is then withheld).
pub fn video_payload_type(
    codec: VideoCodec,
    h264_codec: Option<u8>,
    vp8_codec: Option<u8>,
) -> (r: Option<u8>)
    ensures
        r == (match codec {
            VideoCodec::H264 => h264_codec,
            VideoCodec::VP8 => vp8_codec,
        }),
{
    match codec {
        VideoCodec::H264 => h264_codec,
        VideoCodec::VP8 => vp8_codec,
    }
}

} // verus!
