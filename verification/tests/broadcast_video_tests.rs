use rtc_relay::broadcast_video::ClientVideoBroadcaster;
use rtc_relay::broadcast_video::ClientVideoSenderEvent;
use rtc_relay::broadcast_video::VideoBroadcastMode;
use rtc_relay::broadcast_video::VideoBroadcastOptions;
use rtc_relay::broadcast_video::VideoSinkCommand;
use rtc_relay::broadcast_video::VideoStopReason;
use rtc_relay::client::ClientInfo;
use rtc_relay::source::VideoSource;
use rtc_relay::source::VideoSourceCommand;
use rtc_relay::source::VideoSourceEvent;
use rtc_relay::VideoCodec;

fn member(id: u32) -> ClientInfo {
    ClientInfo { client_id: id, client_data: 1000 + id as u64, rtc_connection: true, native_connection: false }
}

fn engine() -> ClientVideoBroadcaster {
    ClientVideoBroadcaster::new(VideoBroadcastMode::Screen, VideoSource::new(9), 1, 1001, 0)
}

fn packet(seq: u16, key_frame: bool) -> VideoSourceEvent {
    VideoSourceEvent::Packet {
        payload: vec![seq as u8],
        timestamp: seq as u32 * 3000,
        marked: true,
        key_frame,
        sequence: seq,
        codec: VideoCodec::VP8,
    }
}

/// Joining a video broadcast notifies the source and forces a keyframe
/// request upstream, at once.
#[test]
fn register_notifies_join_and_requests_keyframe() {
    let mut b = engine();
    b.register_client(&member(2), 1000);
    assert_eq!(b.client_ids(), vec![2]);
    assert_eq!(
        b.source.commands,
        vec![
            VideoSourceCommand::NotifyClientJoin { client_id: 2, client_data: 1002 },
            VideoSourceCommand::RequestPli,
        ]
    );
    // registering twice stays a no-op
    b.register_client(&member(2), 2000);
    assert_eq!(b.source.commands.len(), 2);
}

/// Leaving a video broadcast notifies the source about the departure —
/// unlike audio, where removal is silent.
#[test]
fn remove_notifies_leave() {
    let mut b = engine();
    b.register_client(&member(2), 0);
    b.source.commands.clear();
    assert!(b.remove_client(2));
    assert_eq!(
        b.source.commands,
        vec![VideoSourceCommand::NotifyClientLeave { client_id: 2, client_data: 1002 }]
    );
    assert!(!b.remove_client(2));
    assert_eq!(b.source.commands.len(), 1);
}

/// A burst of receiver keyframe requests within the rate-limit window
/// yields exactly one immediate upstream request; the deferred one is
/// scheduled no sooner than the window after the first.
#[test]
fn pli_storm_is_rate_limited() {
    let mut b = engine();
    b.register_client(&member(2), 0);
    b.register_client(&member(3), 0);
    b.register_client(&member(4), 0);
    b.source.commands.clear();
    b.pli_request_timestamp = 10_000; // last request went out at 10s

    // three receivers ask within a 100ms window
    b.push_sink_event(2, ClientVideoSenderEvent::RequestPLI);
    b.push_sink_event(3, ClientVideoSenderEvent::RequestPLI);
    b.poll_senders(10_040);
    b.push_sink_event(4, ClientVideoSenderEvent::RequestPLI);
    b.poll_senders(10_100);

    // nothing went upstream at once (the window since 10_000 is still open),
    // and one deferred request sits armed for the end of the window
    assert_eq!(b.source.commands, vec![]);
    assert_eq!(b.pli_request_timer, Some(10_500));

    // the timer fires on the next source pass after the deadline
    assert!(!b.poll_source(10_600));
    assert_eq!(b.source.commands, vec![VideoSourceCommand::RequestPli]);
    assert_eq!(b.pli_request_timer, None);
    assert_eq!(b.pli_request_timestamp, 10_600);
}

/// A request outside the rate-limit window goes upstream at once.
#[test]
fn pli_outside_window_is_immediate() {
    let mut b = engine();
    b.register_client(&member(2), 0);
    b.source.commands.clear();
    b.pli_request_timestamp = 1000;
    b.push_sink_event(2, ClientVideoSenderEvent::RequestPLI);
    b.poll_senders(2000);
    assert_eq!(b.source.commands, vec![VideoSourceCommand::RequestPli]);
    assert_eq!(b.pli_request_timestamp, 2000);
}

/// When no keyframe arrived within the configured interval, the broadcast
/// requests one upstream, rate-limited.
#[test]
fn auto_keyframe_interval_requests_pli() {
    let mut b = engine();
    b.register_client(&member(2), 0);
    b.source.commands.clear();
    b.configure(&VideoBroadcastOptions { update_mask: 0x2, bitrate: 0, keyframe_interval: 1000 })
        .unwrap();
    b.pli_request_timestamp = 0;

    b.source.push_event(packet(0, true));
    assert!(!b.poll_source(10_000));
    // keyframe seen: nothing requested
    assert_eq!(b.source.commands, vec![]);

    b.source.push_event(packet(1, false));
    assert!(!b.poll_source(11_200));
    // 1200ms since the last keyframe with a 1000ms interval: one request
    assert_eq!(b.source.commands, vec![VideoSourceCommand::RequestPli]);

    // an interval of zero disables the mechanism
    let mut c = engine();
    c.register_client(&member(2), 0);
    c.source.commands.clear();
    c.configure(&VideoBroadcastOptions { update_mask: 0x2, bitrate: 0, keyframe_interval: 0 })
        .unwrap();
    c.source.push_event(packet(0, true));
    c.poll_source(0);
    c.source.push_event(packet(1, false));
    c.poll_source(500_000);
    assert_eq!(c.source.commands, vec![]);
}

/// The configuration update applies only the flagged fields; reading the
/// configuration reports the effective values.
#[test]
fn configure_applies_flagged_fields() {
    let mut b = engine();
    assert_eq!(b.config(), VideoBroadcastOptions { update_mask: 0, bitrate: 0, keyframe_interval: 7000 });
    b.configure(&VideoBroadcastOptions { update_mask: 0x1, bitrate: 500_000, keyframe_interval: 9 })
        .unwrap();
    // the keyframe interval was not flagged and stays
    assert_eq!(b.config(), VideoBroadcastOptions { update_mask: 0, bitrate: 500_000, keyframe_interval: 7000 });
    assert_eq!(b.source.commands, vec![VideoSourceCommand::SetBitrate(Some(500_000))]);
    // bitrate zero lifts the cap
    b.configure(&VideoBroadcastOptions { update_mask: 0x3, bitrate: 0, keyframe_interval: 2500 })
        .unwrap();
    assert_eq!(b.config(), VideoBroadcastOptions { update_mask: 0, bitrate: 0, keyframe_interval: 2500 });
    assert_eq!(b.source.commands.last(), Some(&VideoSourceCommand::SetBitrate(None)));
}

/// Video timeouts use the ten-times-longer window.
#[test]
fn video_timeout_window_is_five_seconds() {
    let mut b = engine();
    b.register_client(&member(2), 0);
    b.source.commands.clear();
    b.source.push_event(packet(0, false));
    b.poll_source(1000);
    b.test_timeout(6000);
    // exactly 5000ms of silence does not fire yet
    let deliveries = b.commands.len();
    b.test_timeout(6001);
    assert_eq!(b.commands.len(), deliveries + 1);
    match b.commands.last().unwrap() {
        VideoSinkCommand::Stop { reason, .. } => assert_eq!(*reason, VideoStopReason::Timeout),
        _ => panic!("expected a stop"),
    }
    // and only once per silence
    b.test_timeout(20_000);
    assert_eq!(b.commands.len(), deliveries + 1);
}

/// A terminal source end stops the pass and reports the broadcast as ended.
#[test]
fn ended_event_terminates() {
    let mut b = engine();
    b.register_client(&member(2), 0);
    b.source.push_event(packet(0, false));
    b.source.push_event(VideoSourceEvent::Ended);
    assert!(b.poll_source(100));
}

/// Reaping closed video sinks notifies the source for each of them.
#[test]
fn closed_sinks_notify_leave() {
    let mut b = engine();
    b.register_client(&member(2), 0);
    b.register_client(&member(3), 0);
    b.source.commands.clear();
    b.mark_sink_closed(2);
    b.poll_senders(0);
    assert_eq!(b.client_ids(), vec![3]);
    assert_eq!(
        b.source.commands,
        vec![VideoSourceCommand::NotifyClientLeave { client_id: 2, client_data: 1002 }]
    );
}

/// Marked packets feed the broadcast's frame-rate ring; the previous full
/// second's slot reports the frame count.
#[test]
fn marked_packets_count_frames() {
    let mut b = ClientVideoBroadcaster::new(VideoBroadcastMode::Camera, VideoSource::new(9), 1, 1001, 5_000);
    for seq in 0..25u16 {
        b.source.push_event(packet(seq, seq == 0));
    }
    assert!(!b.poll_source(5_400));
    // unmarked packets would not count; all test packets are marked
    assert_eq!(b.fps.fps(6_400 / 1000), 25);
    // the next second starts a fresh slot
    b.source.push_event(packet(30, false));
    b.poll_source(6_500);
    assert_eq!(b.fps.fps(7_000 / 1000), 1);
}
