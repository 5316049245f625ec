use rtc_relay::extension::GeneralExtension;
use rtc_relay::extension::OneByteExtension;
use rtc_relay::extension::TwoByteExtension;
use rtc_relay::fps::FpsCounter;
use rtc_relay::h264::h264_is_keyframe;
use rtc_relay::rtp::classify_audio_packet;
use rtc_relay::rtp::classify_video_packet;
use rtc_relay::rtp::get_audio_extension;
use rtc_relay::rtp::select_opus_payload_types;
use rtc_relay::rtp::select_video_payload_types;
use rtc_relay::rtp::vp8_is_keyframe;
use rtc_relay::rtp::RemoteCodec;
use rtc_relay::rtp::RemoteCodecKind;
use rtc_relay::source::AudioSourceEvent;
use rtc_relay::source::VideoSourceEvent;
use rtc_relay::vp8::PictureId;
use rtc_relay::vp8::VP8PayloadDescriptor;
use rtc_relay::AudioCodec;
use rtc_relay::VideoCodec;

#[test]
fn one_byte_extension_finds_elements() {
    // element id 1 (len 1), padding, element id 3 (len 2)
    let buf = [0x10, 0xaa, 0x00, 0x31, 0xbb, 0xcc, 0xdd];
    let ext = OneByteExtension::new(&buf);
    assert_eq!(ext.value(1), Some(&buf[1..2]));
    assert_eq!(ext.value(3), Some(&buf[4..6]));
    assert_eq!(ext.value(2), None);

    let mut it = ext.iter();
    assert_eq!(it.next(), Some((1, &buf[1..2])));
    assert_eq!(it.next(), Some((3, &buf[4..6])));
    assert_eq!(it.next(), None);
}

#[test]
fn one_byte_extension_stops_on_broken_header() {
    // announces 16 bytes of data but only one follows
    let buf = [0x1f, 0xaa];
    let ext = OneByteExtension::new(&buf);
    assert_eq!(ext.value(1), None);
}

#[test]
fn two_byte_extension_finds_elements() {
    // element id 1, length byte 0 (one data byte), element id 7, length 1
    let buf = [0x01, 0x00, 0xaa, 0x07, 0x01, 0xbb, 0xcc];
    let ext = TwoByteExtension::new(&buf);
    assert_eq!(ext.value(1), Some(&buf[2..3]));
    assert_eq!(ext.value(7), Some(&buf[5..7]));
    assert_eq!(ext.value(9), None);
    let mut it = ext.iter();
    assert_eq!(it.next(), Some((1, &buf[2..3])));
    assert_eq!(it.next(), Some((7, &buf[5..7])));
    assert_eq!(it.next(), None);
}

#[test]
fn audio_extension_reads_level() {
    // one-byte layout, element id 1, one byte: activity bit set, level 13
    let buf = [0x10, 0x8d];
    assert_eq!(get_audio_extension(0xbede, &buf), Some((true, 13)));
    // two-byte layout
    let buf2 = [0x01, 0x00, 0x0d];
    assert_eq!(get_audio_extension(0x100, &buf2), Some((false, 13)));
    // unknown profile id carries no level
    assert_eq!(get_audio_extension(0x7777, &buf), None);
}

#[test]
fn h264_keyframe_detection() {
    // NAL type 7: sequence parameter set
    assert_eq!(h264_is_keyframe(&[0x67, 0x01]), Some(true));
    // NAL type 1: plain slice
    assert_eq!(h264_is_keyframe(&[0x61]), Some(false));
    // fragmented (type 28) wrapping an SPS
    assert_eq!(h264_is_keyframe(&[0x7c, 0x87]), Some(true));
    assert_eq!(h264_is_keyframe(&[0x7c, 0x81]), Some(false));
    // truncated fragment
    assert_eq!(h264_is_keyframe(&[0x7c]), None);
    // empty buffer
    assert_eq!(h264_is_keyframe(&[]), None);
    // aggregation packet (type 24): size 1, NAL 7
    assert_eq!(h264_is_keyframe(&[0x78, 0x00, 0x01, 0x67]), Some(true));
    // aggregation packet whose first entry is not an SPS and ends after it
    assert_eq!(h264_is_keyframe(&[0x78, 0x00, 0x01, 0x61, 0x00]), Some(false));
}

#[test]
fn vp8_descriptor_parses() {
    // no extension bit: one control byte, then the frame
    let buf = [0x10, 0xff, 0xee];
    let d = VP8PayloadDescriptor::parse(&buf).expect("descriptor");
    assert!(d.partition_start);
    assert_eq!(d.partition_index, 0);
    assert_eq!(d.picture_id, PictureId::Absent);
    assert_eq!(d.payload, &buf[1..]);

    // extended, short picture id
    let buf2 = [0x90, 0x80, 0x12, 0xaa];
    let d2 = VP8PayloadDescriptor::parse(&buf2).expect("descriptor");
    assert_eq!(d2.picture_id, PictureId::Short(0x12));
    assert_eq!(d2.payload, &buf2[3..]);

    // extended, full picture id
    let buf3 = [0x90, 0x80, 0x85, 0x01, 0xaa];
    let d3 = VP8PayloadDescriptor::parse(&buf3).expect("descriptor");
    assert_eq!(d3.picture_id, PictureId::Full(0x0501));

    // truncated: announces a picture id that is missing
    assert_eq!(VP8PayloadDescriptor::parse(&[0x90, 0x80]).is_none(), true);
    assert_eq!(VP8PayloadDescriptor::parse(&[]).is_none(), true);
}

#[test]
fn vp8_keyframe_detection() {
    // partition start, index 0; key frame (bit 0 clear), magic bytes, dimensions
    let buf = [
        0x10, // descriptor: partition start
        0x00, 0x00, 0x00, // frame tag, inter-frame bit clear
        0x9d, 0x01, 0x2a, // magic
        0x40, 0x01, // width
        0xf0, 0x00, // height
    ];
    assert_eq!(vp8_is_keyframe(&buf), Some(true));
    // inter frame: bit 0 of the frame tag set
    let buf2 = [0x10, 0x01, 0x00, 0x00];
    assert_eq!(vp8_is_keyframe(&buf2), Some(false));
    // not a partition start
    let buf3 = [0x00, 0x00, 0x00, 0x00];
    assert_eq!(vp8_is_keyframe(&buf3), Some(false));
    // bad magic
    let buf4 = [0x10, 0x00, 0x00, 0x00, 0x9d, 0x01, 0x2b, 0x00, 0x00, 0x00, 0x00];
    assert_eq!(vp8_is_keyframe(&buf4), None);
}

#[test]
fn audio_classification_drops_silence_and_unknown() {
    let level_ext = [0x10, 0x0d]; // one-byte layout, level 13, no activity
    let got = classify_audio_packet(111, 0xbede, &level_ext, vec![1, 2, 3], 7, true, 999);
    match got {
        Some(AudioSourceEvent::Packet { sequence, codec, marked, payload, level, timestamp }) => {
            assert_eq!(sequence, 7);
            assert_eq!(codec, AudioCodec::Opus);
            assert!(marked);
            assert_eq!(payload, vec![1, 2, 3]);
            assert_eq!(level, Some(13));
            assert_eq!(timestamp, 999);
        },
        _ => panic!("expected a packet"),
    }
    // music payload type
    let got = classify_audio_packet(112, 0xbede, &level_ext, vec![1], 8, false, 1);
    match got {
        Some(AudioSourceEvent::Packet { codec, .. }) => assert_eq!(codec, AudioCodec::OpusMusic),
        _ => panic!("expected a packet"),
    }
    // silence: level 127, no voice activity
    let silent = [0x10, 0x7f];
    assert!(classify_audio_packet(111, 0xbede, &silent, vec![1], 9, false, 2).is_none());
    // active full-scale level is kept
    let active = [0x10, 0xff];
    assert!(classify_audio_packet(111, 0xbede, &active, vec![1], 9, false, 2).is_some());
    // missing extension: dropped
    assert!(classify_audio_packet(111, 0x7777, &level_ext, vec![1], 10, false, 3).is_none());
    // unknown payload type: dropped
    assert!(classify_audio_packet(96, 0xbede, &level_ext, vec![1], 11, false, 4).is_none());
}

#[test]
fn video_classification_reads_codec_and_keyframe() {
    let got = classify_video_packet(126, vec![0x67], 5, true, 100);
    match got {
        Some(VideoSourceEvent::Packet { codec, key_frame, sequence, .. }) => {
            assert_eq!(codec, VideoCodec::H264);
            assert!(key_frame);
            assert_eq!(sequence, 5);
        },
        _ => panic!("expected a packet"),
    }
    let got = classify_video_packet(120, vec![0x00, 0x01, 0x00, 0x00], 6, false, 101);
    match got {
        Some(VideoSourceEvent::Packet { codec, key_frame, .. }) => {
            assert_eq!(codec, VideoCodec::VP8);
            assert!(!key_frame);
        },
        _ => panic!("expected a packet"),
    }
    // a malformed keyframe header downgrades to "not a keyframe"
    let got = classify_video_packet(126, vec![], 7, false, 102);
    match got {
        Some(VideoSourceEvent::Packet { key_frame, .. }) => assert!(!key_frame),
        _ => panic!("expected a packet"),
    }
    // unknown payload type: dropped
    assert!(classify_video_packet(96, vec![0x67], 8, false, 103).is_none());
}

#[test]
fn opus_payload_type_selection() {
    let mono = RemoteCodec { payload_type: 102, kind: RemoteCodecKind::OpusMono };
    let stereo = RemoteCodec { payload_type: 103, kind: RemoteCodecKind::OpusStereo };
    let other = RemoteCodec { payload_type: 9, kind: RemoteCodecKind::Other };
    // both offered
    assert_eq!(select_opus_payload_types(&[other, mono, stereo]), (102, 103));
    // only mono offered as the single codec: both streams use it
    assert_eq!(select_opus_payload_types(&[mono]), (102, 102));
    // only stereo offered as the single codec: both streams use it
    assert_eq!(select_opus_payload_types(&[stereo]), (103, 103));
    // nothing usable: the defaults
    assert_eq!(select_opus_payload_types(&[other, other]), (111, 112));
    assert_eq!(select_opus_payload_types(&[]), (111, 112));
}

#[test]
fn video_payload_type_selection() {
    let h264 = RemoteCodec { payload_type: 126, kind: RemoteCodecKind::H264 };
    let vp8 = RemoteCodec { payload_type: 120, kind: RemoteCodecKind::VP8 };
    assert_eq!(select_video_payload_types(&[vp8, h264]), (Some(126), Some(120)));
    assert_eq!(select_video_payload_types(&[h264]), (Some(126), None));
    assert_eq!(select_video_payload_types(&[]), (None, None));
}

#[test]
fn fps_counter_counts_per_second() {
    let mut fps = FpsCounter::new(1000);
    for _ in 0..30 {
        fps.log_frame(1000);
    }
    // one second later the previous second's slot reads 30
    assert_eq!(fps.fps(1001), 30);
    fps.log_frame(1001);
    fps.log_frame(1001);
    assert_eq!(fps.fps(1002), 2);
    // a long silence zeroes the slots lazily
    fps.log_frame(1040);
    assert_eq!(fps.fps(1041), 1);
    assert_eq!(fps.fps(1042), 0);
    // reset leaves the ring untouched
    fps.reset();
    assert_eq!(fps.fps(1041), 1);
}
