//! H264 keyframe detection on RTP payloads: a packet is a keyframe when it
//! carries (or aggregates) a sequence-parameter-set NAL unit.  Only a
//! truncated buffer makes the check fail.
use vstd::prelude::*;

verus! {

/// Walks the single-time-aggregation entries of `buf` from offset `i`: two
/// bytes of entry size, then the entry whose first byte holds the NAL type.
/// `Some(true)` on a sequence parameter set, `None` where the byte after a
/// size field is missing, `Some(false)` when the walk ends.
pub open spec fn h264_stap_scan(buf: Seq<u8>, i: int) -> Option<bool>
    decreases buf.len() - i,
{
    if i < 0 || i + 2 > buf.len() {
        Some(false)
    } else if i + 3 > buf.len() {
        None
    } else {
        let psize = (buf[i] as int) * 256 + (buf[i + 1] as int);
        let nal = buf[i + 2] & 0x1f;
        if nal == 7 {
            Some(true)
        } else {
            let next = i + 3 + psize;
            h264_stap_scan(
                buf,
                if next > buf.len() {
                    buf.len() as int
                } else {
                    next
                },
            )
        }
    }
}

/// Whether the packet in `buf` is an H264 keyframe: `None` when the buffer
/// is too short to decide.
pub open spec fn h264_keyframe(buf: Seq<u8>) -> Option<bool> {
    if buf.len() < 1 {
        None
    } else {
        let nal_type = buf[0] & 0x1f;
        if nal_type == 7 {
            Some(true)
        } else if nal_type == 28 || nal_type == 29 {
            if buf.len() < 2 {
                None
            } else {
                Some((buf[1] & 0x1f) == 7)
            }
        } else if nal_type == 24 {
            h264_stap_scan(buf, 1)
        } else {
            Some(false)
        }
    }
}

/// Decides whether the packet in `buffer` is an H264 keyframe; `None` when
/// the buffer is truncated where a NAL header was announced.
pub fn h264_is_keyframe(buffer: &[u8]) -> (r: Option<bool>)
    ensures
        r == h264_keyframe(buffer@),
{
    if buffer.len() < 1 {
        return None;
    }
    let nal_header = buffer[0];
    let packet_nal_type = nal_header & 0x1f;

    if packet_nal_type == 7 {
        // Sequence parameter set
        Some(true)
    } else if packet_nal_type == 28 || packet_nal_type == 29 {
        if buffer.len() < 2 {
            return None;
        }
        Some((buffer[1] & 0x1f) == 7)
    } else if packet_nal_type == 24 {
        // Single-time aggregation packet
        let mut i: usize = 1;
        loop
            invariant
                1 <= i <= buffer@.len(),
                h264_keyframe(buffer@) == h264_stap_scan(buffer@, 1),
                h264_stap_scan(buffer@, i as int) == h264_stap_scan(buffer@, 1),
            decreases buffer@.len() - i,
        {
            if buffer.len() - i < 2 {
                return Some(false);
            }
            if buffer.len() - i < 3 {
                return None;
            }
            let psize = (buffer[i] as usize) * 256 + (buffer[i + 1] as usize);
            let nal = buffer[i + 2] & 0x1f;
            if nal == 7 {
                return Some(true);
            }
            if psize > buffer.len() - (i + 3) {
                i = buffer.len();
            } else {
                i = i + 3 + psize;
            }
        }
    } else {
        Some(false)
    }
}

} // verus!
