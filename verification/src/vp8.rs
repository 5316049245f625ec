//! VP8 RTP payload-descriptor parsing (RFC 7741, section 4.2), as far as the
//! relay needs it: the control flags, the optional picture-id block, and the
//! offset of the codec payload.  Only truncation makes parsing fail.
use vstd::prelude::*;

verus! {

/// The picture id carried by a VP8 payload descriptor.
#[derive(Clone, Copy, Debug, PartialEq, Eq, Structural)]
pub enum PictureId {
    /// No picture id is present.
    Absent,
    /// Only the last 7 bits of the picture id are present.
    Short(u8),
    /// The full picture id is present.
    Full(u16),
}

/// The optional layer-extension block of a VP8 payload descriptor.
#[derive(Clone, Copy, Debug, PartialEq, Eq)]
pub struct LayerExtension {
    pub temporal_index: Option<(u8, bool)>,
    pub key_index: Option<u8>,
}

/// All parts of a parsed descriptor but the payload itself: picture id,
/// tl0 picture index, layer extension, non-reference flag, partition-start
/// flag, partition index, and the offset where the codec payload begins.
pub type Vp8Parsed = (PictureId, Option<u8>, Option<LayerExtension>, bool, bool, u8, int);

/// Parses the descriptor at the head of `buf`: `None` when `buf` is too
/// short for the blocks its own control bits announce.
pub open spec fn parse_vp8(buf: Seq<u8>) -> Option<Vp8Parsed> {
    if buf.len() < 1 {
        None
    } else {
        let bits = buf[0];
        let non_reference = (bits & 0x20) > 0;
        let partition_start = (bits & 0x10) > 0;
        let partition_index = bits & 0x7;
        if (bits & 0x80) == 0 {
            Some(
                (
                    PictureId::Absent,
                    None::<u8>,
                    None::<LayerExtension>,
                    non_reference,
                    partition_start,
                    partition_index,
                    1int,
                ),
            )
        } else if buf.len() < 2 {
            None
        } else {
            let ext = buf[1];
            let pid_len: int = if (ext & 0x80) == 0 {
                0
            } else if buf.len() < 3 {
                -1
            } else if (buf[2] & 0x80) > 0 {
                2
            } else {
                1
            };
            if pid_len < 0 || 2 + pid_len > buf.len() {
                None
            } else {
                let picture_id = if pid_len == 0 {
                    PictureId::Absent
                } else if pid_len == 1 {
                    PictureId::Short(buf[2])
                } else {
                    PictureId::Full((((buf[2] & 0x7f) as u16) << 8) | (buf[3] as u16))
                };
                let tl0_len: int = if (ext & 0x40) > 0 {
                    1
                } else {
                    0
                };
                if 2 + pid_len + tl0_len > buf.len() {
                    None
                } else {
                    let tl0_pic_idx = if tl0_len == 1 {
                        Some(buf[2 + pid_len])
                    } else {
                        None::<u8>
                    };
                    let layer_len: int = if (ext & 0x30) > 0 {
                        1
                    } else {
                        0
                    };
                    if 2 + pid_len + tl0_len + layer_len > buf.len() {
                        None
                    } else {
                        let layer_extension = if layer_len == 1 {
                            let lbyte = buf[2 + pid_len + tl0_len];
                            Some(
                                LayerExtension {
                                    temporal_index: if (ext & 0x20) > 0 {
                                        Some((lbyte >> 6, ((lbyte >> 5) & 0x1) == 1))
                                    } else {
                                        None::<(u8, bool)>
                                    },
                                    key_index: if (ext & 0x10) > 0 {
                                        Some(lbyte & 0x1f)
                                    } else {
                                        None::<u8>
                                    },
                                },
                            )
                        } else {
                            None::<LayerExtension>
                        };
                        Some(
                            (
                                picture_id,
                                tl0_pic_idx,
                                layer_extension,
                                non_reference,
                                partition_start,
                                partition_index,
                                2 + pid_len + tl0_len + layer_len,
                            ),
                        )
                    }
                }
            }
        }
    }
}

/// A parsed VP8 payload descriptor together with the codec payload that
/// follows it.
pub struct VP8PayloadDescriptor<'a> {
    pub picture_id: PictureId,
    pub tl0_pic_idx: Option<u8>,
    pub layer_extension: Option<LayerExtension>,
    pub non_reference_frame: bool,
    pub partition_start: bool,
    pub partition_index: u8,
    pub payload: &'a [u8],
}

impl<'a> VP8PayloadDescriptor<'a> {
    /// Parses the descriptor at the head of `payload`; fails exactly when
    /// the buffer is shorter than its own control bits announce.
    pub fn parse(payload: &'a [u8]) -> (r: Option<VP8PayloadDescriptor<'a>>)
        ensures
            (match r {
                Some(d) => parse_vp8(payload@) matches Some(p) && d.picture_id == p.0
                    && d.tl0_pic_idx == p.1 && d.layer_extension == p.2 && d.non_reference_frame
                    == p.3 && d.partition_start == p.4 && d.partition_index == p.5 && d.payload@
                    == payload@.subrange(p.6, payload@.len() as int),
                None => parse_vp8(payload@) is None,
            }),
    {
        if payload.len() < 1 {
            return None;
        }
        let bits = payload[0];
        let non_reference_frame = (bits & 0x20) > 0;
        let partition_start = (bits & 0x10) > 0;
        let partition_index = bits & 0x7;

        if (bits & 0x80) == 0 {
            return Some(
                VP8PayloadDescriptor {
                    picture_id: PictureId::Absent,
                    tl0_pic_idx: None,
                    layer_extension: None,
                    non_reference_frame,
                    partition_start,
                    partition_index,
                    payload: &payload[1..payload.len()],
                },
            );
        }
        if payload.len() < 2 {
            return None;
        }
        let ext = payload[1];

        let picture_id: PictureId;
        let pid_len: usize;
        if (ext & 0x80) == 0 {
            picture_id = PictureId::Absent;
            pid_len = 0;
        } else {
            if payload.len() < 3 {
                return None;
            }
            if (payload[2] & 0x80) > 0 {
                if payload.len() < 4 {
                    return None;
                }
                picture_id = PictureId::Full(
                    (((payload[2] & 0x7f) as u16) << 8) | (payload[3] as u16),
                );
                pid_len = 2;
            } else {
                picture_id = PictureId::Short(payload[2]);
                pid_len = 1;
            }
        }

        let tl0_pic_idx: Option<u8>;
        let tl0_len: usize;
        if (ext & 0x40) > 0 {
            if 2 + pid_len >= payload.len() {
                return None;
            }
            tl0_pic_idx = Some(payload[2 + pid_len]);
            tl0_len = 1;
        } else {
            tl0_pic_idx = None;
            tl0_len = 0;
        }

        let layer_extension: Option<LayerExtension>;
        let layer_len: usize;
        if (ext & 0x30) > 0 {
            if 2 + pid_len + tl0_len >= payload.len() {
                return None;
            }
            let lbyte = payload[2 + pid_len + tl0_len];
            layer_extension = Some(
                LayerExtension {
                    temporal_index: if (ext & 0x20) > 0 {
                        Some((lbyte >> 6, ((lbyte >> 5) & 0x1) == 1))
                    } else {
                        None
                    },
                    key_index: if (ext & 0x10) > 0 {
                        Some(lbyte & 0x1f)
                    } else {
                        None
                    },
                },
            );
            layer_len = 1;
        } else {
            layer_extension = None;
            layer_len = 0;
        }

        let offset = 2 + pid_len + tl0_len + layer_len;
        Some(
            VP8PayloadDescriptor {
                picture_id,
                tl0_pic_idx,
                layer_extension,
                non_reference_frame,
                partition_start,
                partition_index,
                payload: &payload[offset..payload.len()],
            },
        )
    }
}

} // verus!
