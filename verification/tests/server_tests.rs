use rtc_relay::broadcast_video::VideoBroadcastOptions;
use rtc_relay::server::ChannelAssignResult;
use rtc_relay::server::Server;
use rtc_relay::server::WhisperConfigureError;

fn no_options() -> VideoBroadcastOptions {
    VideoBroadcastOptions { update_mask: 0, bitrate: 0, keyframe_interval: 0 }
}

fn connect(server: &mut Server, client_id: u32) {
    assert!(server.initialize_rtc_connection(client_id));
}

/// Ids are handed out from one upwards, and lookups route to the right
/// objects.
#[test]
fn id_allocation_and_lookup() {
    let mut server = Server::new();
    let c1 = server.create_client(501);
    let c2 = server.create_client(502);
    assert_eq!((c1, c2), (1, 2));
    let ch = server.create_channel();
    assert_eq!(ch, 1);
    assert!(server.find_client(c1).is_some());
    assert!(server.find_client(99).is_none());
    assert!(server.find_channel(ch).is_some());
    assert!(server.find_channel(99).is_none());
}

/// Channel assignment registers the member, reassignment moves it, and
/// assignment to channel zero just removes it.
#[test]
fn assign_channel_moves_members() {
    let mut server = Server::new();
    let c1 = server.create_client(501);
    let ch1 = server.create_channel();
    let ch2 = server.create_channel();

    assert_eq!(server.assign_channel(c1, ch1), ChannelAssignResult::Success);
    assert_eq!(server.get_channel_id(c1), Some(ch1));
    assert_eq!(server.assign_channel(c1, ch2), ChannelAssignResult::Success);
    assert_eq!(server.get_channel_id(c1), Some(ch2));
    assert!(!server.find_channel(ch1).unwrap().clients.iter().any(|m| m.client_id == c1));
    assert!(server.find_channel(ch2).unwrap().clients.iter().any(|m| m.client_id == c1));

    assert_eq!(server.assign_channel(c1, 0), ChannelAssignResult::Success);
    assert_eq!(server.get_channel_id(c1), None);

    assert_eq!(server.assign_channel(99, ch1), ChannelAssignResult::ClientUnknown);
    assert_eq!(server.assign_channel(c1, 99), ChannelAssignResult::TargetChannelUnknown);
}

/// The audio broadcast entry point maps the channel results onto the wire
/// status codes.
#[test]
fn broadcast_audio_status_codes() {
    let mut server = Server::new();
    let c1 = server.create_client(501);
    // no channel yet
    assert_eq!(server.broadcast_audio(c1, 7, 0), 2);
    let ch = server.create_channel();
    server.assign_channel(c1, ch);
    // no connection: invalid stream
    assert_eq!(server.broadcast_audio(c1, 7, 0), 4);
    // ... but stream id zero only stops, which is fine
    assert_eq!(server.broadcast_audio(c1, 0, 0), 0);
    connect(&mut server, c1);
    assert_eq!(server.broadcast_audio(c1, 7, 0), 0);
    assert!(server.find_channel(ch).unwrap().is_client_audio_broadcasting(c1));
}

/// The video entry points validate the broadcast kind and map the results.
#[test]
fn broadcast_video_status_codes() {
    let mut server = Server::new();
    let c1 = server.create_client(501);
    let ch = server.create_channel();
    server.assign_channel(c1, ch);
    connect(&mut server, c1);
    assert_eq!(server.broadcast_video(c1, 7, 9, &no_options(), 0), 3);
    assert_eq!(server.broadcast_video(c1, 1, 9, &no_options(), 0), 0);
    assert_eq!(server.configure_video_broadcast(c1, 7, &no_options()), 1);
    assert_eq!(server.configure_video_broadcast(c1, 0, &no_options()), 3);
    assert_eq!(
        server.configure_video_broadcast(
            c1,
            1,
            &VideoBroadcastOptions { update_mask: 0x2, bitrate: 0, keyframe_interval: 1234 },
        ),
        0
    );
    let (code, config) = server.get_video_broadcast_config(c1, 1);
    assert_eq!(code, 0);
    assert_eq!(config.unwrap().keyframe_interval, 1234);
    assert_eq!(server.get_video_broadcast_config(c1, 0).0, 3);
    assert_eq!(server.get_video_broadcast_config(99, 1).0, 2);
}

/// Joining and leaving a peer's video broadcast through the top-level
/// entry points.
#[test]
fn join_and_leave_video() {
    let mut server = Server::new();
    let c1 = server.create_client(501);
    let c2 = server.create_client(502);
    let ch = server.create_channel();
    server.assign_channel(c1, ch);
    server.assign_channel(c2, ch);
    connect(&mut server, c1);
    connect(&mut server, c2);
    assert_eq!(server.broadcast_video(c1, 0, 9, &no_options(), 0), 0);
    assert_eq!(server.join_video_broadcast(c2, c1, 0, 0), 0);
    assert_eq!(server.join_video_broadcast(c2, c1, 1, 0), 3);
    assert_eq!(server.join_video_broadcast(c2, c1, 9, 0), 1);
    assert_eq!(server.join_video_broadcast(99, c1, 0, 0), 2);
    server.leave_video_broadcast(c2, c1, 0);
    let ch_ref = server.find_channel(ch).unwrap();
    assert!(ch_ref.video_broadcasts[0].client_ids().is_empty());
}

/// A finished audio source tears the broadcast down on the next poll.
#[test]
fn poll_tears_down_ended_broadcast() {
    let mut server = Server::new();
    let c1 = server.create_client(501);
    let ch = server.create_channel();
    server.assign_channel(c1, ch);
    connect(&mut server, c1);
    assert_eq!(server.broadcast_audio(c1, 7, 0), 0);
    assert_eq!(server.poll_audio_broadcast(c1, 10), Some(false));
    // the transport reports the source gone
    let k = server.channels.iter().position(|c| c.id == ch).unwrap();
    server.channels[k].audio_broadcasts[0].source.mark_ended();
    assert_eq!(server.poll_audio_broadcast(c1, 20), Some(true));
    assert!(!server.find_channel(ch).unwrap().is_client_audio_broadcasting(c1));
    assert_eq!(server.poll_audio_broadcast(c1, 30), None);
}

/// Destroying a channel strips the assignments of its members.
#[test]
fn destroy_channel_clears_assignments() {
    let mut server = Server::new();
    let c1 = server.create_client(501);
    let ch = server.create_channel();
    server.assign_channel(c1, ch);
    assert!(server.destroy_channel(ch));
    assert_eq!(server.get_channel_id(c1), None);
    assert!(!server.destroy_channel(ch));
}

/// Destroying a client unregisters it everywhere first.
#[test]
fn destroy_client_unregisters() {
    let mut server = Server::new();
    let c1 = server.create_client(501);
    let ch = server.create_channel();
    server.assign_channel(c1, ch);
    assert!(server.destroy_client(c1));
    assert!(server.find_client(c1).is_none());
    assert!(!server.find_channel(ch).unwrap().clients.iter().any(|m| m.client_id == c1));
    assert!(!server.destroy_client(c1));
}

/// Whisper configuration creates a session, reuses it while the stream
/// matches, and registers the resolvable targets.
#[test]
fn whisper_configure_and_reset() {
    let mut server = Server::new();
    let c1 = server.create_client(501);
    let c2 = server.create_client(502);
    let c3 = server.create_client(503);
    connect(&mut server, c1);
    connect(&mut server, c2);
    connect(&mut server, c3);

    assert_eq!(
        server.whisper_configure(99, 4, &[c2], 0),
        Err(WhisperConfigureError::InvalidClient)
    );

    assert_eq!(server.whisper_configure(c1, 4, &[c2, c3], 0), Ok(()));
    let session_id;
    {
        let c = server.find_client(c1).unwrap();
        let s = c.whisper_session.as_ref().expect("session");
        session_id = s.session_id;
        assert_ne!(session_id, 0);
        assert_eq!(s.stream_id, 4);
        assert_eq!(s.broadcast.client_ids(), vec![c2, c3]);
    }

    // same stream: the session is reused; target diff drops c2 and adds an
    // unknown id silently
    assert_eq!(server.whisper_configure(c1, 4, &[c3, 77], 0), Ok(()));
    {
        let c = server.find_client(c1).unwrap();
        let s = c.whisper_session.as_ref().expect("session");
        assert_eq!(s.session_id, session_id);
        assert_eq!(s.broadcast.client_ids(), vec![c3]);
    }

    // a different stream makes a new session under a new id
    assert_eq!(server.whisper_configure(c1, 5, &[c2], 0), Ok(()));
    {
        let c = server.find_client(c1).unwrap();
        let s = c.whisper_session.as_ref().expect("session");
        assert_ne!(s.session_id, session_id);
        assert_eq!(s.stream_id, 5);
    }

    server.whisper_reset(c1);
    assert!(server.find_client(c1).unwrap().whisper_session.is_none());

    // a client without any connection cannot open a session
    let c4 = server.create_client(504);
    assert_eq!(
        server.whisper_configure(c4, 4, &[c1], 0),
        Err(WhisperConfigureError::ClientHasNoSource)
    );
}

/// A whispering client can target itself.
#[test]
fn whisper_self_target() {
    let mut server = Server::new();
    let c1 = server.create_client(501);
    connect(&mut server, c1);
    assert_eq!(server.whisper_configure(c1, 4, &[c1], 0), Ok(()));
    let s = server.find_client(c1).unwrap().whisper_session.as_ref().unwrap();
    assert_eq!(s.broadcast.client_ids(), vec![c1]);
}

/// The server-wide sweep reaches every channel.
#[test]
fn server_sweep_runs() {
    let mut server = Server::new();
    let c1 = server.create_client(501);
    let ch = server.create_channel();
    server.assign_channel(c1, ch);
    connect(&mut server, c1);
    server.broadcast_audio(c1, 7, 0);
    let k = server.channels.iter().position(|c| c.id == ch).unwrap();
    server.channels[k].audio_broadcasts[0].source.push_event(
        rtc_relay::source::AudioSourceEvent::Packet {
            timestamp: 0,
            sequence: 0,
            codec: rtc_relay::AudioCodec::Opus,
            marked: false,
            payload: vec![1],
            level: None,
        },
    );
    server.poll_audio_broadcast(c1, 1000);
    let before = server.channels[k].audio_broadcasts[0].commands.len();
    server.sweep_timeouts(1600);
    assert_eq!(server.channels[k].audio_broadcasts[0].commands.len(), before + 1);
}
