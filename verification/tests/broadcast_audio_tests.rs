use rtc_relay::broadcast_audio::AudioBroadcastMode;
use rtc_relay::broadcast_audio::AudioSinkCommand;
use rtc_relay::broadcast_audio::AudioStopReason;
use rtc_relay::broadcast_audio::ClientAudioBroadcaster;
use rtc_relay::client::ClientInfo;
use rtc_relay::source::AudioSource;
use rtc_relay::source::AudioSourceEvent;

fn member(id: u32) -> ClientInfo {
    ClientInfo { client_id: id, client_data: 1000 + id as u64, rtc_connection: true, native_connection: false }
}

fn packet(seq: u16, tsp: u32) -> AudioSourceEvent {
    AudioSourceEvent::Packet {
        timestamp: tsp,
        sequence: seq,
        codec: rtc_relay::AudioCodec::Opus,
        marked: false,
        payload: vec![seq as u8],
        level: Some(10),
    }
}

fn engine() -> ClientAudioBroadcaster {
    ClientAudioBroadcaster::new(AudioBroadcastMode::Channel, AudioSource::new(7), 1, 1001, 0)
}

/// Registering the same client twice attaches exactly one sink.
#[test]
fn register_is_idempotent() {
    let mut b = engine();
    b.register_client(&member(2));
    b.register_client(&member(2));
    assert_eq!(b.client_ids(), vec![2]);
    b.register_client(&member(3));
    b.register_client(&member(2));
    assert_eq!(b.client_ids(), vec![2, 3]);
}

/// A client without any transport connection cannot be attached.
#[test]
fn register_needs_a_connection() {
    let mut b = engine();
    let mut no_transport = member(9);
    no_transport.rtc_connection = false;
    b.register_client(&no_transport);
    assert!(b.client_ids().is_empty());
}

/// Removing an absent client id reports false and changes nothing.
#[test]
fn remove_absent_is_a_no_op() {
    let mut b = engine();
    b.register_client(&member(2));
    let before = b.client_ids();
    assert!(!b.remove_client(5));
    assert_eq!(b.client_ids(), before);
    assert!(b.commands.is_empty());
    assert!(b.remove_client(2));
    assert!(!b.remove_client(2));
    assert!(b.client_ids().is_empty());
}

/// The first packet after a stopped state sends a start to every sink
/// before the delivery; a sink registered mid-stream is sent its own start
/// at once.
#[test]
fn start_precedes_delivery() {
    let mut b = engine();
    b.register_client(&member(2));
    b.register_client(&member(3));
    b.source.push_event(packet(0, 0));
    let ended = b.poll_source(100);
    assert!(!ended);
    assert_eq!(b.commands.len(), 2);
    match &b.commands[0] {
        AudioSinkCommand::Start { recipients } => assert_eq!(recipients, &vec![2, 3]),
        _ => panic!("expected a start first"),
    }
    match &b.commands[1] {
        AudioSinkCommand::Deliver { recipients, sequence, .. } => {
            assert_eq!(recipients, &vec![2, 3]);
            assert_eq!(*sequence, 0);
        },
        _ => panic!("expected the delivery second"),
    }
    // mid-stream: a newcomer gets a start signal immediately
    b.register_client(&member(4));
    match &b.commands[2] {
        AudioSinkCommand::Start { recipients } => assert_eq!(recipients, &vec![4]),
        _ => panic!("expected a start for the newcomer"),
    }
    // ... and the next packet goes to all three without another start
    b.source.push_event(packet(1, 960));
    b.poll_source(200);
    assert_eq!(b.commands.len(), 4);
    match &b.commands[3] {
        AudioSinkCommand::Deliver { recipients, .. } => assert_eq!(recipients, &vec![2, 3, 4]),
        _ => panic!("expected a delivery"),
    }
}

/// A graceful end signal stops the stream once and keeps the broadcast
/// alive; the next packet starts it again.
#[test]
fn end_signal_stops_and_stream_resumes() {
    let mut b = engine();
    b.register_client(&member(2));
    b.source.push_event(packet(0, 0));
    b.source.push_event(AudioSourceEvent::EndSignal);
    b.source.push_event(packet(1, 960));
    assert!(!b.poll_source(50));
    let kinds: Vec<&'static str> = b
        .commands
        .iter()
        .map(|c| match c {
            AudioSinkCommand::Start { .. } => "start",
            AudioSinkCommand::Stop { .. } => "stop",
            AudioSinkCommand::Deliver { .. } => "deliver",
        })
        .collect();
    assert_eq!(kinds, vec!["start", "deliver", "stop", "start", "deliver"]);
    match &b.commands[2] {
        AudioSinkCommand::Stop { reason, .. } => assert_eq!(*reason, AudioStopReason::User),
        _ => unreachable!(),
    }
}

/// An end signal while nothing was forwarded stops nothing.
#[test]
fn end_signal_without_stream_is_silent() {
    let mut b = engine();
    b.register_client(&member(2));
    b.source.push_event(AudioSourceEvent::EndSignal);
    assert!(!b.poll_source(50));
    assert!(b.commands.is_empty());
}

/// A drained source that ended for good reports the end.
#[test]
fn source_end_reported() {
    let mut b = engine();
    b.source.push_event(packet(0, 0));
    b.source.mark_ended();
    assert!(b.poll_source(10));
    assert!(b.source.events.is_empty());
}

/// No packet for more than half a second fires exactly one stop batch;
/// repeated checks before a new packet fire nothing further.
#[test]
fn timeout_fires_once() {
    let mut b = engine();
    b.register_client(&member(2));
    b.register_client(&member(3));
    b.source.push_event(packet(0, 0));
    b.poll_source(1000);
    assert_eq!(b.commands.len(), 2);
    // exactly at the window boundary nothing fires
    b.test_timeout(1500);
    assert_eq!(b.commands.len(), 2);
    b.test_timeout(1501);
    assert_eq!(b.commands.len(), 3);
    match &b.commands[2] {
        AudioSinkCommand::Stop { recipients, reason } => {
            assert_eq!(recipients, &vec![2, 3]);
            assert_eq!(*reason, AudioStopReason::Timeout);
        },
        _ => panic!("expected a stop batch"),
    }
    // the silence continues: no further stop
    b.test_timeout(2501);
    b.test_timeout(9999);
    assert_eq!(b.commands.len(), 3);
}

/// A clock reading before the last packet cannot fire the timeout.
#[test]
fn timeout_ignores_clock_glitches() {
    let mut b = engine();
    b.register_client(&member(2));
    b.source.push_event(packet(0, 0));
    b.poll_source(5000);
    b.test_timeout(100);
    assert_eq!(b.commands.len(), 2);
}

/// Sinks whose transport went away are reaped on the next sweep, without
/// any notification.
#[test]
fn closed_sinks_are_reaped() {
    let mut b = engine();
    b.register_client(&member(2));
    b.register_client(&member(3));
    b.register_client(&member(4));
    b.mark_sink_closed(3);
    b.poll_senders();
    assert_eq!(b.client_ids(), vec![2, 4]);
    assert!(b.commands.is_empty());
}
