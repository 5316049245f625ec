use rtc_relay::broadcast_audio::AudioSinkCommand;
use rtc_relay::broadcast_video::VideoBroadcastMode;
use rtc_relay::broadcast_video::VideoBroadcastOptions;
use rtc_relay::channel::BroadcastStartResult;
use rtc_relay::channel::Channel;
use rtc_relay::channel::VideoBroadcastJoinResult;
use rtc_relay::client::ClientInfo;
use rtc_relay::source::VideoSourceCommand;

fn member(id: u32) -> ClientInfo {
    ClientInfo { client_id: id, client_data: 1000 + id as u64, rtc_connection: true, native_connection: false }
}

fn no_options() -> VideoBroadcastOptions {
    VideoBroadcastOptions { update_mask: 0, bitrate: 0, keyframe_interval: 0 }
}

/// Channel members present before an audio broadcast starts are attached
/// as sinks without any explicit join; a member joining afterwards is
/// attached automatically as well.  The publisher itself never is.
#[test]
fn channel_audio_auto_subscribes_members() {
    let mut ch = Channel::new(1);
    ch.register_client(member(1));
    ch.register_client(member(2));
    ch.register_client(member(3));

    let r = ch.broadcast_client_audio(1, 7, 0);
    assert_eq!(r, BroadcastStartResult::Succeeded);
    assert!(ch.is_client_audio_broadcasting(1));
    assert_eq!(ch.audio_broadcasts.len(), 1);
    assert_eq!(ch.audio_broadcasts[0].source.stream_id, 7);
    assert_eq!(ch.audio_broadcasts[0].client_ids(), vec![2, 3]);

    // client 4 joins the channel afterwards: auto-registered too
    ch.register_client(member(4));
    assert_eq!(ch.audio_broadcasts[0].client_ids(), vec![2, 3, 4]);
}

/// Starting an audio broadcast for a non-member, or for a member without
/// any source-capable connection, is rejected with the right result.
#[test]
fn channel_audio_rejections() {
    let mut ch = Channel::new(1);
    assert_eq!(ch.broadcast_client_audio(9, 7, 0), BroadcastStartResult::InvalidClient);

    let mut no_source = member(5);
    no_source.rtc_connection = false;
    ch.register_client(no_source);
    assert_eq!(ch.broadcast_client_audio(5, 7, 0), BroadcastStartResult::ClientHasNoSource);
    assert!(!ch.is_client_audio_broadcasting(5));
}

/// Restarting a member's audio broadcast replaces the old one.
#[test]
fn channel_audio_restart_replaces() {
    let mut ch = Channel::new(1);
    ch.register_client(member(1));
    ch.register_client(member(2));
    assert_eq!(ch.broadcast_client_audio(1, 7, 0), BroadcastStartResult::Succeeded);
    assert_eq!(ch.broadcast_client_audio(1, 8, 0), BroadcastStartResult::Succeeded);
    assert_eq!(ch.audio_broadcasts.len(), 1);
    assert_eq!(ch.audio_broadcasts[0].source.stream_id, 8);
}

/// Video is opt-in: members are not auto-subscribed; an explicit join
/// succeeds, and a later leave removes the sink and notifies the source of
/// the departure — which channel audio never does.
#[test]
fn video_is_opt_in_and_leave_notifies() {
    let mut ch = Channel::new(1);
    ch.register_client(member(1));
    ch.register_client(member(2));

    let r = ch.broadcast_client_video(1, 9, VideoBroadcastMode::Screen, &no_options(), 0);
    assert_eq!(r, BroadcastStartResult::Succeeded);
    // member 2 is not auto-subscribed
    assert!(ch.video_broadcasts[0].client_ids().is_empty());

    let r = ch.join_video_broadcast(2, 1, VideoBroadcastMode::Screen, 0);
    assert!(matches!(r, VideoBroadcastJoinResult::Success));
    assert_eq!(ch.video_broadcasts[0].client_ids(), vec![2]);

    ch.video_broadcasts[0].source.commands.clear();
    ch.leave_video_broadcast(2, 1, VideoBroadcastMode::Screen);
    assert!(ch.video_broadcasts[0].client_ids().is_empty());
    assert_eq!(
        ch.video_broadcasts[0].source.commands,
        vec![VideoSourceCommand::NotifyClientLeave { client_id: 2, client_data: 1002 }]
    );
}

/// Joining with the wrong mode or an unknown publisher is rejected.
#[test]
fn video_join_rejections() {
    let mut ch = Channel::new(1);
    ch.register_client(member(1));
    ch.register_client(member(2));
    ch.broadcast_client_video(1, 9, VideoBroadcastMode::Screen, &no_options(), 0);
    assert!(matches!(
        ch.join_video_broadcast(2, 1, VideoBroadcastMode::Camera, 0),
        VideoBroadcastJoinResult::InvalidBroadcast
    ));
    assert!(matches!(
        ch.join_video_broadcast(9, 1, VideoBroadcastMode::Screen, 0),
        VideoBroadcastJoinResult::InvalidClient
    ));
}

/// A started video broadcast owes the members one coalesced directory
/// update; taking it clears the debt until something changes again.
#[test]
fn video_directory_updates_coalesce() {
    let mut ch = Channel::new(1);
    ch.register_client(member(1));
    ch.register_client(member(2));
    assert!(ch.take_video_broadcast_update().is_none());

    ch.broadcast_client_video(1, 9, VideoBroadcastMode::Camera, &no_options(), 0);
    ch.broadcast_client_video(2, 10, VideoBroadcastMode::Screen, &no_options(), 0);
    let (datas, infos) = ch.take_video_broadcast_update().expect("one update owed");
    assert_eq!(datas, vec![1001, 1002]);
    assert_eq!(infos.len(), 2);
    assert_eq!(infos[0].broadcast_type, 0);
    assert_eq!(infos[0].broadcasting_client_id, 1);
    assert_eq!(infos[1].broadcast_type, 1);
    assert_eq!(infos[1].broadcasting_client_id, 2);
    assert!(ch.take_video_broadcast_update().is_none());
}

/// Unregistering a member tears down its own broadcasts and removes it as
/// a sink everywhere else.
#[test]
fn unregister_cleans_up() {
    let mut ch = Channel::new(1);
    ch.register_client(member(1));
    ch.register_client(member(2));
    ch.register_client(member(3));
    ch.broadcast_client_audio(1, 7, 0);
    ch.broadcast_client_audio(2, 8, 0);
    assert_eq!(ch.audio_broadcasts.len(), 2);

    ch.unregister_client(2, false);
    assert_eq!(ch.audio_broadcasts.len(), 1);
    assert_eq!(ch.audio_broadcasts[0].source_client_id(), 1);
    assert_eq!(ch.audio_broadcasts[0].client_ids(), vec![3]);
    assert!(!ch.is_client_audio_broadcasting(2));
}

/// The periodic sweep runs the timeout test over every broadcast in the
/// channel.
#[test]
fn sweep_fires_timeouts() {
    let mut ch = Channel::new(1);
    ch.register_client(member(1));
    ch.register_client(member(2));
    ch.broadcast_client_audio(1, 7, 0);
    ch.audio_broadcasts[0].source.push_event(
        rtc_relay::source::AudioSourceEvent::Packet {
            timestamp: 0,
            sequence: 0,
            codec: rtc_relay::AudioCodec::Opus,
            marked: false,
            payload: vec![1],
            level: None,
        },
    );
    ch.audio_broadcasts[0].poll_source(1000);
    let before = ch.audio_broadcasts[0].commands.len();
    ch.sweep_timeouts(1400);
    assert_eq!(ch.audio_broadcasts[0].commands.len(), before);
    ch.sweep_timeouts(1501);
    assert_eq!(ch.audio_broadcasts[0].commands.len(), before + 1);
    match ch.audio_broadcasts[0].commands.last().unwrap() {
        AudioSinkCommand::Stop { .. } => {},
        _ => panic!("expected a stop"),
    }
}

/// Leaving the channel with the directory update suppressed owes nothing,
/// even though the member's video broadcast died with it; an unsuppressed
/// unregister owes one coalesced update.
#[test]
fn unregister_directory_flag() {
    let mut ch = Channel::new(1);
    ch.register_client(member(1));
    ch.register_client(member(2));
    ch.broadcast_client_video(1, 9, VideoBroadcastMode::Camera, &no_options(), 0);
    ch.take_video_broadcast_update();

    // suppressed: the leaving client already knows it stopped broadcasting
    ch.unregister_client(1, false);
    assert!(ch.take_video_broadcast_update().is_none());

    ch.register_client(member(3));
    ch.broadcast_client_video(3, 9, VideoBroadcastMode::Camera, &no_options(), 0);
    ch.take_video_broadcast_update();
    ch.unregister_client(3, true);
    assert!(ch.take_video_broadcast_update().is_some());
}

/// Restarting a video broadcast replaces the one with the same key only;
/// the other kind survives.
#[test]
fn video_restart_replaces_same_kind() {
    let mut ch = Channel::new(1);
    ch.register_client(member(1));
    ch.broadcast_client_video(1, 9, VideoBroadcastMode::Camera, &no_options(), 0);
    ch.broadcast_client_video(1, 10, VideoBroadcastMode::Screen, &no_options(), 0);
    ch.broadcast_client_video(1, 11, VideoBroadcastMode::Camera, &no_options(), 0);
    assert_eq!(ch.video_broadcasts.len(), 2);
    let infos = ch.video_broadcast_info();
    assert_eq!(infos.len(), 2);
    assert!(ch.get_video_broadcast(1, VideoBroadcastMode::Camera).is_some());
    assert_eq!(
        ch.get_video_broadcast(1, VideoBroadcastMode::Camera).unwrap().source.stream_id,
        11
    );
}
