use rtc_relay::broadcast_audio::AudioBroadcastMode;
use rtc_relay::broadcast_audio::ClientAudioBroadcaster;
use rtc_relay::client::ClientInfo;
use rtc_relay::source::AudioSource;
use rtc_relay::source::AudioSourceEvent;
use rtc_relay::whisper::WhisperSession;

fn member(id: u32) -> ClientInfo {
    ClientInfo { client_id: id, client_data: 1000 + id as u64, rtc_connection: true, native_connection: false }
}

fn session(now: u64) -> WhisperSession {
    let broadcast = ClientAudioBroadcaster::new(
        AudioBroadcastMode::Whisper,
        AudioSource::new(4),
        1,
        1001,
        now,
    );
    WhisperSession::new(42, 4, broadcast)
}

/// Updating the target list from `[2, 3]` to `[3, 4]` unregisters client 2,
/// leaves client 3 untouched, and reports exactly `[4]` as still to add.
#[test]
fn target_list_update_diffs() {
    let mut s = session(0);
    s.register_client(&member(2));
    s.register_client(&member(3));
    assert_eq!(s.broadcast.client_ids(), vec![2, 3]);

    let to_add = s.update_target_clients(&[3, 4]);
    assert_eq!(to_add, vec![4]);
    assert_eq!(s.broadcast.client_ids(), vec![3]);
    assert_eq!(s.targets, vec![3]);

    // the caller resolves and registers the reported ids
    s.register_client(&member(4));
    assert_eq!(s.broadcast.client_ids(), vec![3, 4]);
    assert_eq!(s.targets, vec![3, 4]);
}

/// An empty new target list unregisters everyone.
#[test]
fn empty_target_list_clears() {
    let mut s = session(0);
    s.register_client(&member(2));
    s.register_client(&member(3));
    let to_add = s.update_target_clients(&[]);
    assert!(to_add.is_empty());
    assert!(s.broadcast.client_ids().is_empty());
    assert!(s.targets.is_empty());
}

/// A session with no audio activity for ten consecutive seconds reports
/// itself finished; one with recent activity does not.
#[test]
fn idle_session_finishes() {
    let mut s = session(0);
    // six 500ms ticks: still within the idle window
    for tick in 1..=6u64 {
        assert!(!s.tick(tick * 500));
    }
    // exactly ten seconds of idleness is still tolerated
    assert!(!s.tick(10_000));
    assert!(!s.tick(10_999));
    // beyond ten full seconds the session is finished
    assert!(s.tick(11_000));
}

/// Audio activity resets the idle clock.
#[test]
fn activity_keeps_session_alive() {
    let mut s = session(0);
    s.broadcast.source.push_event(AudioSourceEvent::Packet {
        timestamp: 0,
        sequence: 0,
        codec: rtc_relay::AudioCodec::Opus,
        marked: false,
        payload: vec![1],
        level: None,
    });
    s.broadcast.poll_source(9_000);
    assert!(!s.tick(11_000));
    assert!(s.tick(20_001));
}

/// The session's identity is stable.
#[test]
fn session_identity() {
    let s = session(0);
    assert_eq!(s.session_id(), 42);
    assert_eq!(s.stream_id(), 4);
}
