//! Verified core of a real-time media relay.
//!
//! The library models the fan-out of one publishing client's media stream
//! ("broadcast") to any number of subscribed sinks: sequence/timestamp
//! rebasing across independent numbering spaces, broadcast lifecycle under
//! churn and timeouts, keyframe/PLI control for video, channel membership,
//! and whisper sessions.  All transport, timer and callback plumbing stays
//! outside; the library receives plain events and hands back the commands
//! that the surrounding host must perform.
use vstd::prelude::*;

pub mod broadcast_audio;
pub mod broadcast_video;
pub mod channel;
pub mod client;
pub mod extension;
pub mod fps;
pub mod h264;
pub mod rebase;
pub mod rtp;
pub mod server;
pub mod source;
pub mod stats;
pub mod vp8;
pub mod whisper;

verus! {

/// The kind of media a broadcast relays to its sinks.
#[derive(Clone, Copy, Debug, PartialEq, Eq, Structural)]
pub enum MediaType {
    Audio,
    AudioWhisper,
    Video,
    VideoScreen,
}

/// Audio payload codecs the relay recognises.
#[derive(Clone, Copy, Debug, PartialEq, Eq, Structural)]
pub enum AudioCodec {
    Opus,
    OpusMusic,
}

/// Video payload codecs the relay recognises.
#[derive(Clone, Copy, Debug, PartialEq, Eq, Structural)]
pub enum VideoCodec {
    H264,
    VP8,
}

impl AudioCodec {
    /// Decodes the wire code of an audio codec; codes outside the known set
    /// are rejected.
    pub fn from(value: u8) -> (r: Option<AudioCodec>)
        ensures
            r == (if value == 4 {
                Some(AudioCodec::Opus)
            } else if value == 5 {
                Some(AudioCodec::OpusMusic)
            } else {
                None::<AudioCodec>
            }),
    {
        match value {
            4u8 => Some(AudioCodec::Opus),
            5u8 => Some(AudioCodec::OpusMusic),
            _ => None,
        }
    }

    /// The wire code of this codec; inverse of `from` on the known codes.
    pub fn code(self) -> (r: u8)
        ensures
            r == (match self {
                AudioCodec::Opus => 4u8,
                AudioCodec::OpusMusic => 5u8,
            }),
    {
        match self {
            AudioCodec::Opus => 4,
            AudioCodec::OpusMusic => 5,
        }
    }
}

/// The library's version string.
pub fn version() -> (r: &'static str)
    ensures
        r@.len() > 0,
{
    proof {
        reveal_strlit("0.1.0");
    }
    "0.1.0"
}

/// Filtering keeps a sequence's elements distinct under any key: every
/// element of the filtered sequence comes from the original, and no key
/// occurs twice if none did before.
pub proof fn lemma_filter_keeps_distinct_keys<T>(
    s: Seq<T>,
    pred: spec_fn(T) -> bool,
    key: spec_fn(T) -> u32,
)
    requires
        forall|i: int, j: int| 0 <= i < j < s.len() ==> key(s[i]) != key(s[j]),
    ensures
        forall|x: T| #[trigger] s.filter(pred).contains(x) ==> s.contains(x),
        forall|i: int, j: int|
            0 <= i < j < s.filter(pred).len() ==> key(s.filter(pred)[i]) != key(s.filter(pred)[j]),
    decreases s.len(),
{
    reveal(Seq::filter);
    if s.len() == 0 {
    } else {
        let rest = s.drop_last();
        let last = s.last();
        assert(forall|i: int, j: int| 0 <= i < j < rest.len() ==> key(rest[i]) != key(rest[j]));
        lemma_filter_keeps_distinct_keys(rest, pred, key);
        let fr = rest.filter(pred);
        let fs = s.filter(pred);
        assert forall|x: T| #[trigger] fs.contains(x) implies s.contains(x) by {
            if pred(last) && x == last {
                assert(s[s.len() - 1] == last);
            } else {
                assert(fr.contains(x));
                assert(rest.contains(x));
                let k = choose|k: int| 0 <= k < rest.len() && rest[k] == x;
                assert(s[k] == x);
            }
        }
        assert forall|i: int, j: int| 0 <= i < j < fs.len() implies key(fs[i]) != key(
            fs[j],
        ) by {
            if pred(last) && j == fs.len() - 1 {
                assert(fs[j] == last);
                assert(fr.contains(fs[i]));
                assert(rest.contains(fs[i]));
                let k = choose|k: int| 0 <= k < rest.len() && rest[k] == fs[i];
                assert(s[k] == fs[i]);
                assert(key(s[k]) != key(s[s.len() - 1]));
            } else {
                assert(fs[i] == fr[i] && fs[j] == fr[j]);
            }
        }
    }
}

/// Membership in a filtered sequence is membership plus the predicate.
pub proof fn lemma_filter_mem<T>(s: Seq<T>, pred: spec_fn(T) -> bool)
    ensures
        forall|x: T| #[trigger] s.filter(pred).contains(x) == (s.contains(x) && pred(x)),
    decreases s.len(),
{
    reveal(Seq::filter);
    if s.len() == 0 {
    } else {
        let rest = s.drop_last();
        let last = s.last();
        lemma_filter_mem(rest, pred);
        assert forall|x: T| #[trigger] s.filter(pred).contains(x) == (s.contains(x) && pred(
            x,
        )) by {
            if s.filter(pred).contains(x) {
                let i = choose|i: int| 0 <= i < s.filter(pred).len() && s.filter(pred)[i] == x;
                if pred(last) && i == s.filter(pred).len() - 1 {
                    assert(s[s.len() - 1] == x);
                } else {
                    assert(rest.filter(pred)[i] == x);
                    assert(rest.filter(pred).contains(x));
                    let w = choose|w: int| 0 <= w < rest.len() && rest[w] == x;
                    assert(s[w] == x);
                }
            }
            if s.contains(x) && pred(x) {
                let i = choose|i: int| 0 <= i < s.len() && s[i] == x;
                if i == s.len() - 1 {
                    assert(s.filter(pred)[s.filter(pred).len() - 1] == x);
                } else {
                    assert(rest[i] == x);
                    assert(rest.filter(pred).contains(x));
                    let w = choose|w: int|
                        0 <= w < rest.filter(pred).len() && rest.filter(pred)[w] == x;
                    assert(s.filter(pred)[w] == x);
                }
            }
        }
    }
}

/// Membership in a pushed sequence is membership or the new element.
pub proof fn lemma_push_mem<T>(s: Seq<T>, v: T)
    ensures
        forall|x: T| #[trigger] s.push(v).contains(x) == (s.contains(x) || x == v),
{
    assert forall|x: T| #[trigger] s.push(v).contains(x) == (s.contains(x) || x == v) by {
        if s.push(v).contains(x) {
            let i = choose|i: int| 0 <= i < s.push(v).len() && s.push(v)[i] == x;
            if i < s.len() {
                assert(s[i] == x);
            }
        }
        if s.contains(x) {
            let i = choose|i: int| 0 <= i < s.len() && s[i] == x;
            assert(s.push(v)[i] == x);
        }
        if x == v {
            assert(s.push(v)[s.len() as int] == x);
        }
    }
}

} // verus!
