//! The channel registry: membership and the broadcasts of one channel.
//!
//! A channel owns the audio and video broadcasts of its members, mediates
//! who hears and sees what (audio is auto-subscribed, video is opt-in via
//! an explicitly joined broadcast), sweeps broadcast timeouts, and keeps a
//! coalesced video-broadcast directory update pending for the host to push.
use vstd::prelude::*;
use crate::broadcast_audio::AudioBroadcastMode;
use crate::broadcast_audio::AudioCommandView;
use crate::broadcast_audio::AudioSinkAttachment;
use crate::broadcast_audio::AudioStopReason;
use crate::broadcast_audio::ClientAudioBroadcaster;
use crate::broadcast_audio::audio_timeout_fires;
use crate::broadcast_video::ClientVideoBroadcaster;
use crate::broadcast_video::VideoBroadcastConfigureError;
use crate::broadcast_video::VideoBroadcastMode;
use crate::broadcast_video::VideoBroadcastOptions;
use crate::broadcast_video::VideoCommandView;
use crate::broadcast_video::VideoStopReason;
use crate::broadcast_video::video_timeout_fires;
use crate::client::ClientInfo;
use crate::source::AudioSource;
use crate::source::ClientData;
use crate::source::VideoSource;

verus! {

/// How starting a broadcast went.
#[derive(Clone, Copy, Debug, PartialEq, Eq, Structural)]
pub enum BroadcastStartResult {
    Succeeded,
    InvalidClient,
    ClientHasNoSource,
    ConfigError(VideoBroadcastConfigureError),
}

/// How joining a video broadcast went.
#[derive(Clone, Copy, Debug, PartialEq, Eq, Structural)]
pub enum VideoBroadcastJoinResult {
    Success,
    InvalidClient,
    InvalidBroadcast,
}

/// One entry of the video-broadcast directory pushed to channel members.
#[derive(Clone, Copy, Debug, PartialEq, Eq, Structural)]
pub struct BroadcastInfo {
    /// The kind of broadcast: zero for camera, one for screen share.
    pub broadcast_type: u8,
    /// The publishing client's id.
    pub broadcasting_client_id: u32,
    /// The publishing client's opaque host handle.
    pub broadcasting_client_data: ClientData,
}

/// The directory wire code of a video broadcast mode.
pub open spec fn video_mode_code(mode: VideoBroadcastMode) -> u8 {
    match mode {
        VideoBroadcastMode::Camera => 0,
        VideoBroadcastMode::Screen => 1,
    }
}

/// The directory entry describing a video broadcast.
pub open spec fn spec_broadcast_info(b: ClientVideoBroadcaster) -> BroadcastInfo {
    BroadcastInfo {
        broadcast_type: video_mode_code(b.mode),
        broadcasting_client_id: b.source_client_id,
        broadcasting_client_data: b.source_client_data,
    }
}

/// What attaching `info` to an audio broadcast changes: nothing for an
/// already-attached or incapable client; otherwise one appended attachment,
/// and a start signal when the broadcast is mid-stream.
pub open spec fn audio_register_effect(
    pre: ClientAudioBroadcaster,
    post: ClientAudioBroadcaster,
    info: ClientInfo,
) -> bool {
    &&& post.mode == pre.mode
    &&& post.last_activity == pre.last_activity
    &&& post.source == pre.source
    &&& post.last_send_packet == pre.last_send_packet
    &&& post.source_client_id == pre.source_client_id
    &&& post.source_client_data == pre.source_client_data
    &&& (if pre.spec_contains_client(info.client_id) || !info.can_send_audio() {
        post == pre
    } else {
        post.sender@ == pre.sender@.push(
            AudioSinkAttachment {
                owner_id: info.client_id,
                owner_data: info.client_data,
                closed: false,
            },
        ) && post.cmds() == (if pre.mid_stream() {
            pre.cmds().push(AudioCommandView::Start { recipients: seq![info.client_id] })
        } else {
            pre.cmds()
        })
    })
}

/// What detaching a client id from an audio broadcast changes: nothing for
/// an absent id; otherwise exactly that attachment leaves.
pub open spec fn audio_remove_effect(
    pre: ClientAudioBroadcaster,
    post: ClientAudioBroadcaster,
    client_id: u32,
) -> bool {
    &&& post.mode == pre.mode
    &&& post.last_activity == pre.last_activity
    &&& post.source == pre.source
    &&& post.last_send_packet == pre.last_send_packet
    &&& post.source_client_id == pre.source_client_id
    &&& post.source_client_data == pre.source_client_data
    &&& post.cmds() == pre.cmds()
    &&& !post.spec_contains_client(client_id)
    &&& (if pre.spec_contains_client(client_id) {
        exists|k: int|
            0 <= k < pre.sender@.len() && pre.sender@[k].owner_id == client_id && post.sender@
                == pre.sender@.remove(k)
    } else {
        post.sender@ == pre.sender@
    })
}

/// What detaching a client id from a video broadcast changes: nothing for
/// an absent id; otherwise exactly that attachment leaves and the source is
/// told.
pub open spec fn video_remove_effect(
    pre: ClientVideoBroadcaster,
    post: ClientVideoBroadcaster,
    client_id: u32,
) -> bool {
    &&& post.mode == pre.mode
    &&& post.last_received_packet == pre.last_received_packet
    &&& post.last_received_keyframe == pre.last_received_keyframe
    &&& post.auto_keyframe_interval == pre.auto_keyframe_interval
    &&& post.pli_request_timestamp == pre.pli_request_timestamp
    &&& post.pli_request_timer == pre.pli_request_timer
    &&& post.source_client_id == pre.source_client_id
    &&& post.source_client_data == pre.source_client_data
    &&& post.cmds() == pre.cmds()
    &&& post.source.stream_id == pre.source.stream_id
    &&& post.source.events@ == pre.source.events@
    &&& post.source.bitrate_limit == pre.source.bitrate_limit
    &&& post.fps == pre.fps
    &&& !post.spec_contains_client(client_id)
    &&& (if pre.spec_contains_client(client_id) {
        exists|k: int|
            0 <= k < pre.sender@.len() && pre.sender@[k].owner_id == client_id && post.sender@
                == pre.sender@.remove(k) && post.source.commands@ == pre.source.commands@.push(
                crate::source::VideoSourceCommand::NotifyClientLeave {
                    client_id,
                    client_data: pre.sender@[k].owner_data,
                },
            )
    } else {
        post.sender@ == pre.sender@ && post.source.commands@ == pre.source.commands@
    })
}

/// What one timeout test changes on an audio broadcast.
pub open spec fn audio_timeout_effect(
    pre: ClientAudioBroadcaster,
    post: ClientAudioBroadcaster,
    now: u64,
) -> bool {
    if audio_timeout_fires(pre, now) {
        post.cmds() == pre.cmds().push(
            AudioCommandView::Stop {
                recipients: crate::broadcast_audio::sink_ids_of(pre.sender@),
                reason: AudioStopReason::Timeout,
            },
        ) && !post.mid_stream() && post.sender@ == pre.sender@ && post.last_activity
            == pre.last_activity && post.source == pre.source && post.mode == pre.mode
            && post.source_client_id == pre.source_client_id
    } else {
        post == pre
    }
}

/// What one timeout test changes on a video broadcast.
pub open spec fn video_timeout_effect(
    pre: ClientVideoBroadcaster,
    post: ClientVideoBroadcaster,
    now: u64,
) -> bool {
    if video_timeout_fires(pre, now) {
        post.cmds() == pre.cmds().push(
            VideoCommandView::Stop {
                recipients: crate::broadcast_video::video_sink_ids_of(pre.sender@),
                reason: VideoStopReason::Timeout,
            },
        ) && !post.mid_stream() && post.last_received_keyframe is None && post.sender@
            == pre.sender@ && post.source == pre.source && post.fps == pre.fps && post.mode
            == pre.mode && post.source_client_id == pre.source_client_id
    } else {
        post == pre
    }
}

/// One channel: membership and the broadcasts it owns.
pub struct Channel {
    /// The channel's id.
    pub id: u32,
    /// The members, in join order, with what broadcasts need to attach
    /// them.
    pub clients: Vec<ClientInfo>,
    /// The audio broadcasts, keyed by their publishing client's id.
    pub audio_broadcasts: Vec<ClientAudioBroadcaster>,
    /// The video broadcasts, keyed by mode and publishing client's id.
    pub video_broadcasts: Vec<ClientVideoBroadcaster>,
    /// Whether a coalesced video-directory update is owed to the members.
    pub video_broadcast_update_pending: bool,
}

impl Channel {
    /// Member ids are unique; each broadcast is well formed, audio ones are
    /// in channel mode, and no two broadcasts share their key.
    pub open spec fn wf(self) -> bool {
        &&& forall|i: int, j: int|
            0 <= i < j < self.clients@.len() ==> self.clients@[i].client_id
                != self.clients@[j].client_id
        &&& forall|k: int| 0 <= k < self.audio_broadcasts@.len() ==> (#[trigger] self.audio_broadcasts@[k]).wf()
        &&& forall|k: int|
            0 <= k < self.audio_broadcasts@.len() ==> (#[trigger] self.audio_broadcasts@[k]).mode
                == AudioBroadcastMode::Channel
        &&& forall|i: int, j: int|
            0 <= i < j < self.audio_broadcasts@.len() ==> self.audio_broadcasts@[i].source_client_id
                != self.audio_broadcasts@[j].source_client_id
        &&& forall|k: int| 0 <= k < self.video_broadcasts@.len() ==> (#[trigger] self.video_broadcasts@[k]).wf()
        &&& forall|i: int, j: int|
            0 <= i < j < self.video_broadcasts@.len() ==> !(self.video_broadcasts@[i].mode
                == self.video_broadcasts@[j].mode && self.video_broadcasts@[i].source_client_id
                == self.video_broadcasts@[j].source_client_id)
    }

    /// Whether a member with this id exists.
    pub open spec fn spec_has_member(self, client_id: u32) -> bool {
        exists|i: int| 0 <= i < self.clients@.len() && self.clients@[i].client_id == client_id
    }

    /// Whether an audio broadcast of this publisher exists.
    pub open spec fn spec_has_audio_broadcast(self, client_id: u32) -> bool {
        exists|i: int|
            0 <= i < self.audio_broadcasts@.len() && self.audio_broadcasts@[i].source_client_id
                == client_id
    }

    /// Whether a video broadcast with this key exists.
    pub open spec fn spec_has_video_broadcast(self, client_id: u32, mode: VideoBroadcastMode) -> bool {
        exists|i: int|
            0 <= i < self.video_broadcasts@.len() && self.video_broadcasts@[i].source_client_id
                == client_id && self.video_broadcasts@[i].mode == mode
    }

    /// A fresh channel without members or broadcasts.
    pub fn new(id: u32) -> (r: Channel)
        ensures
            r.wf(),
            r.id == id,
            r.clients@ == Seq::<ClientInfo>::empty(),
            r.audio_broadcasts@ == Seq::<ClientAudioBroadcaster>::empty(),
            r.video_broadcasts@ == Seq::<ClientVideoBroadcaster>::empty(),
            !r.video_broadcast_update_pending,
    {
        Channel {
            id,
            clients: Vec::new(),
            audio_broadcasts: Vec::new(),
            video_broadcasts: Vec::new(),
            video_broadcast_update_pending: false,
        }
    }

    /// The index of the member with this id.
    fn find_member(&self, client_id: u32) -> (r: Option<usize>)
        ensures
            (match r {
                Some(i) => i < self.clients@.len() && self.clients@[i as int].client_id
                    == client_id,
                None => !self.spec_has_member(client_id),
            }),
    {
        let mut i: usize = 0;
        while i < self.clients.len()
            invariant
                i <= self.clients@.len(),
                forall|j: int| 0 <= j < i ==> self.clients@[j].client_id != client_id,
            decreases self.clients@.len() - i,
        {
            if self.clients[i].client_id == client_id {
                return Some(i);
            }
            i = i + 1;
        }
        None
    }

    /// The index of the audio broadcast published by this client.
    fn find_audio_broadcast(&self, client_id: u32) -> (r: Option<usize>)
        ensures
            (match r {
                Some(i) => i < self.audio_broadcasts@.len()
                    && self.audio_broadcasts@[i as int].source_client_id == client_id,
                None => !self.spec_has_audio_broadcast(client_id),
            }),
    {
        let mut i: usize = 0;
        while i < self.audio_broadcasts.len()
            invariant
                i <= self.audio_broadcasts@.len(),
                forall|j: int|
                    0 <= j < i ==> self.audio_broadcasts@[j].source_client_id != client_id,
            decreases self.audio_broadcasts@.len() - i,
        {
            if self.audio_broadcasts[i].source_client_id() == client_id {
                return Some(i);
            }
            i = i + 1;
        }
        None
    }

    /// The index of the video broadcast with this key.
    fn find_video_broadcast(&self, client_id: u32, broadcast_type: VideoBroadcastMode) -> (r:
        Option<usize>)
        ensures
            (match r {
                Some(i) => i < self.video_broadcasts@.len()
                    && self.video_broadcasts@[i as int].source_client_id == client_id
                    && self.video_broadcasts@[i as int].mode == broadcast_type,
                None => !self.spec_has_video_broadcast(client_id, broadcast_type),
            }),
    {
        let mut i: usize = 0;
        while i < self.video_broadcasts.len()
            invariant
                i <= self.video_broadcasts@.len(),
                forall|j: int|
                    0 <= j < i ==> !(self.video_broadcasts@[j].source_client_id == client_id
                        && self.video_broadcasts@[j].mode == broadcast_type),
            decreases self.video_broadcasts@.len() - i,
        {
            if self.video_broadcasts[i].source_client_id() == client_id {
                let matches_mode = match (self.video_broadcasts[i].mode, broadcast_type) {
                    (VideoBroadcastMode::Camera, VideoBroadcastMode::Camera) => true,
                    (VideoBroadcastMode::Screen, VideoBroadcastMode::Screen) => true,
                    _ => false,
                };
                if matches_mode {
                    return Some(i);
                }
            }
            i = i + 1;
        }
        None
    }

    /// The index of the audio broadcast of this publisher, for in-crate
    /// callers that must mutate it.
    pub(crate) fn find_audio_broadcast_index(&self, client_id: u32) -> (r: Option<usize>)
        ensures
            (match r {
                Some(i) => i < self.audio_broadcasts@.len()
                    && self.audio_broadcasts@[i as int].source_client_id == client_id,
                None => !self.spec_has_audio_broadcast(client_id),
            }),
    {
        self.find_audio_broadcast(client_id)
    }

    /// The index of the video broadcast with this key, for in-crate
    /// callers that must mutate it.
    pub(crate) fn find_video_broadcast_index(
        &self,
        client_id: u32,
        broadcast_type: VideoBroadcastMode,
    ) -> (r: Option<usize>)
        ensures
            (match r {
                Some(i) => i < self.video_broadcasts@.len()
                    && self.video_broadcasts@[i as int].source_client_id == client_id
                    && self.video_broadcasts@[i as int].mode == broadcast_type,
                None => !self.spec_has_video_broadcast(client_id, broadcast_type),
            }),
    {
        self.find_video_broadcast(client_id, broadcast_type)
    }

    /// Whether this client currently publishes channel audio.
    pub fn is_client_audio_broadcasting(&self, client_id: u32) -> (r: bool)
        ensures
            r == self.spec_has_audio_broadcast(client_id),
    {
        match self.find_audio_broadcast(client_id) {
            Some(_) => true,
            None => false,
        }
    }

    /// A borrow of the video broadcast with this key.
    pub fn get_video_broadcast(&self, client_id: u32, broadcast_type: VideoBroadcastMode) -> (r:
        Option<&ClientVideoBroadcaster>)
        ensures
            (match r {
                Some(b) => exists|i: int|
                    0 <= i < self.video_broadcasts@.len() && *b == self.video_broadcasts@[i]
                        && b.source_client_id == client_id && b.mode == broadcast_type,
                None => !self.spec_has_video_broadcast(client_id, broadcast_type),
            }),
    {
        match self.find_video_broadcast(client_id, broadcast_type) {
            Some(i) => {
                proof {
                    assert(self.video_broadcasts@[i as int] == self.video_broadcasts@[i as int]);
                }
                Some(&self.video_broadcasts[i])
            },
            None => None,
        }
    }

    /// The current video-broadcast directory, in broadcast order.
    pub fn video_broadcast_info(&self) -> (r: Vec<BroadcastInfo>)
        ensures
            r@ == self.video_broadcasts@.map_values(
                |b: ClientVideoBroadcaster| spec_broadcast_info(b),
            ),
    {
        let mut infos: Vec<BroadcastInfo> = Vec::new();
        let mut i: usize = 0;
        while i < self.video_broadcasts.len()
            invariant
                i <= self.video_broadcasts@.len(),
                infos@ == self.video_broadcasts@.subrange(0, i as int).map_values(
                    |b: ClientVideoBroadcaster| spec_broadcast_info(b),
                ),
            decreases self.video_broadcasts@.len() - i,
        {
            let b = &self.video_broadcasts[i];
            infos.push(
                BroadcastInfo {
                    broadcast_type: match b.mode {
                        VideoBroadcastMode::Camera => 0,
                        VideoBroadcastMode::Screen => 1,
                    },
                    broadcasting_client_id: b.source_client_id,
                    broadcasting_client_data: b.source_client_data,
                },
            );
            proof {
                assert(self.video_broadcasts@.subrange(0, i + 1).drop_last()
                    =~= self.video_broadcasts@.subrange(0, i as int));
                assert(infos@ =~= self.video_broadcasts@.subrange(0, i + 1).map_values(
                    |b: ClientVideoBroadcaster| spec_broadcast_info(b),
                ));
            }
            i = i + 1;
        }
        proof {
            assert(self.video_broadcasts@.subrange(0, self.video_broadcasts@.len() as int)
                =~= self.video_broadcasts@);
        }
        infos
    }

    /// Marks a coalesced video-directory update as owed; a second request
    /// while one is owed changes nothing.
    pub fn broadcast_video_broadcast_update(&mut self)
        ensures
            final(self).id == old(self).id,
            final(self).clients@ == old(self).clients@,
            final(self).audio_broadcasts@ == old(self).audio_broadcasts@,
            final(self).video_broadcasts@ == old(self).video_broadcasts@,
            final(self).video_broadcast_update_pending,
    {
        if self.video_broadcast_update_pending {
            return ;
        }
        self.video_broadcast_update_pending = true;
    }

    /// Hands the host the owed coalesced directory update, if any: the
    /// member handles to notify and the directory, clearing the pending
    /// mark.
    pub fn take_video_broadcast_update(&mut self) -> (r: Option<(Vec<ClientData>, Vec<
        BroadcastInfo,
    >)>)
        ensures
            final(self).id == old(self).id,
            final(self).clients@ == old(self).clients@,
            final(self).audio_broadcasts@ == old(self).audio_broadcasts@,
            final(self).video_broadcasts@ == old(self).video_broadcasts@,
            !final(self).video_broadcast_update_pending,
            (if old(self).video_broadcast_update_pending {
                r matches Some(u) && u.0@ == old(self).clients@.map_values(
                    |c: ClientInfo| c.client_data,
                ) && u.1@ == old(self).video_broadcasts@.map_values(
                    |b: ClientVideoBroadcaster| spec_broadcast_info(b),
                )
            } else {
                r is None
            }),
    {
        if !self.video_broadcast_update_pending {
            return None;
        }
        self.video_broadcast_update_pending = false;
        let mut datas: Vec<ClientData> = Vec::new();
        let mut i: usize = 0;
        while i < self.clients.len()
            invariant
                i <= self.clients@.len(),
                datas@ == self.clients@.subrange(0, i as int).map_values(
                    |c: ClientInfo| c.client_data,
                ),
            decreases self.clients@.len() - i,
        {
            datas.push(self.clients[i].client_data);
            proof {
                assert(self.clients@.subrange(0, i + 1).drop_last() =~= self.clients@.subrange(
                    0,
                    i as int,
                ));
                assert(datas@ =~= self.clients@.subrange(0, i + 1).map_values(
                    |c: ClientInfo| c.client_data,
                ));
            }
            i = i + 1;
        }
        proof {
            assert(self.clients@.subrange(0, self.clients@.len() as int) =~= self.clients@);
        }
        let infos = self.video_broadcast_info();
        Some((datas, infos))
    }

    /// Removes the audio broadcast published by this client, if any.
    pub fn shutdown_broadcast_audio(&mut self, client_id: u32)
        requires
            old(self).wf(),
        ensures
            final(self).wf(),
            final(self).id == old(self).id,
            final(self).clients@ == old(self).clients@,
            final(self).video_broadcasts@ == old(self).video_broadcasts@,
            final(self).video_broadcast_update_pending == old(self).video_broadcast_update_pending,
            !final(self).spec_has_audio_broadcast(client_id),
            (if old(self).spec_has_audio_broadcast(client_id) {
                exists|k: int|
                    0 <= k < old(self).audio_broadcasts@.len() && old(self).audio_broadcasts@[k].source_client_id == client_id && final(self).audio_broadcasts@ == old(self).audio_broadcasts@.remove(k)
            } else {
                final(self).audio_broadcasts@ == old(self).audio_broadcasts@
            }),
    {
        match self.find_audio_broadcast(client_id) {
            Some(i) => {
                self.audio_broadcasts.remove(i);
                proof {
                    assert forall|k: int|
                        0 <= k < self.audio_broadcasts@.len() implies self.audio_broadcasts@[k].source_client_id != client_id by {
                        if k < i {
                            assert(self.audio_broadcasts@[k] == old(self).audio_broadcasts@[k]);
                        } else {
                            assert(self.audio_broadcasts@[k] == old(self).audio_broadcasts@[k
                                + 1]);
                        }
                    }
                    assert forall|a: int, b: int|
                        0 <= a < b < self.audio_broadcasts@.len() implies self.audio_broadcasts@[a].source_client_id
                        != self.audio_broadcasts@[b].source_client_id by {
                        let a0 = if a < i {
                            a
                        } else {
                            a + 1
                        };
                        let b0 = if b < i {
                            b
                        } else {
                            b + 1
                        };
                        assert(self.audio_broadcasts@[a] == old(self).audio_broadcasts@[a0]);
                        assert(self.audio_broadcasts@[b] == old(self).audio_broadcasts@[b0]);
                    }
                    assert forall|k: int|
                        0 <= k < self.audio_broadcasts@.len() implies (
                        #[trigger] self.audio_broadcasts@[k]).wf()
                            && self.audio_broadcasts@[k].mode == AudioBroadcastMode::Channel by {
                        if k < i {
                            assert(self.audio_broadcasts@[k] == old(self).audio_broadcasts@[k]);
                        } else {
                            assert(self.audio_broadcasts@[k] == old(self).audio_broadcasts@[k
                                + 1]);
                        }
                    }
                }
            },
            None => {},
        }
    }

    /// Removes the video broadcast with this key, if any, and owes the
    /// members a directory update when something was removed.
    pub fn shutdown_broadcast_video(&mut self, client_id: u32, broadcast_type: VideoBroadcastMode)
        requires
            old(self).wf(),
        ensures
            final(self).wf(),
            final(self).id == old(self).id,
            final(self).clients@ == old(self).clients@,
            final(self).audio_broadcasts@ == old(self).audio_broadcasts@,
            !final(self).spec_has_video_broadcast(client_id, broadcast_type),
            (if old(self).spec_has_video_broadcast(client_id, broadcast_type) {
                final(self).video_broadcast_update_pending && exists|k: int|
                    0 <= k < old(self).video_broadcasts@.len() && old(self).video_broadcasts@[k].source_client_id == client_id && old(self).video_broadcasts@[k].mode == broadcast_type && final(self).video_broadcasts@
                        == old(self).video_broadcasts@.remove(k)
            } else {
                final(self).video_broadcasts@ == old(self).video_broadcasts@ && final(self).video_broadcast_update_pending == old(self).video_broadcast_update_pending
            }),
    {
        match self.find_video_broadcast(client_id, broadcast_type) {
            Some(i) => {
                self.video_broadcasts.remove(i);
                proof {
                    assert forall|k: int|
                        0 <= k < self.video_broadcasts@.len() implies !(self.video_broadcasts@[k].source_client_id == client_id && self.video_broadcasts@[k].mode
                            == broadcast_type) by {
                        if k < i {
                            assert(self.video_broadcasts@[k] == old(self).video_broadcasts@[k]);
                        } else {
                            assert(self.video_broadcasts@[k] == old(self).video_broadcasts@[k
                                + 1]);
                        }
                    }
                    assert forall|a: int, b: int|
                        0 <= a < b < self.video_broadcasts@.len() implies !(self.video_broadcasts@[a].mode == self.video_broadcasts@[b].mode
                            && self.video_broadcasts@[a].source_client_id
                            == self.video_broadcasts@[b].source_client_id) by {
                        let a0 = if a < i {
                            a
                        } else {
                            a + 1
                        };
                        let b0 = if b < i {
                            b
                        } else {
                            b + 1
                        };
                        assert(self.video_broadcasts@[a] == old(self).video_broadcasts@[a0]);
                        assert(self.video_broadcasts@[b] == old(self).video_broadcasts@[b0]);
                    }
                    assert forall|k: int|
                        0 <= k < self.video_broadcasts@.len() implies (
                        #[trigger] self.video_broadcasts@[k]).wf() by {
                        if k < i {
                            assert(self.video_broadcasts@[k] == old(self).video_broadcasts@[k]);
                        } else {
                            assert(self.video_broadcasts@[k] == old(self).video_broadcasts@[k
                                + 1]);
                        }
                    }
                }
                self.broadcast_video_broadcast_update();
            },
            None => {},
        }
    }
}


/// What attaching `info` to a video broadcast at `now` changes: nothing for
/// an already-attached or incapable client; otherwise one appended
/// attachment, a start signal when the broadcast is mid-stream, a join
/// notification and a forced keyframe request upstream.
pub open spec fn video_register_effect(
    pre: ClientVideoBroadcaster,
    post: ClientVideoBroadcaster,
    info: ClientInfo,
    now: u64,
) -> bool {
    &&& post.mode == pre.mode
    &&& post.last_received_packet == pre.last_received_packet
    &&& post.last_received_keyframe == pre.last_received_keyframe
    &&& post.auto_keyframe_interval == pre.auto_keyframe_interval
    &&& post.source_client_id == pre.source_client_id
    &&& post.source_client_data == pre.source_client_data
    &&& post.source.stream_id == pre.source.stream_id
    &&& post.source.events@ == pre.source.events@
    &&& post.source.bitrate_limit == pre.source.bitrate_limit
    &&& post.fps == pre.fps
    &&& (if pre.spec_contains_client(info.client_id) || !info.can_send_video() {
        post == pre
    } else {
        post.sender@.len() == pre.sender@.len() + 1 && post.sender@.subrange(
            0,
            pre.sender@.len() as int,
        ) == pre.sender@ && post.sender@.last().owner_id == info.client_id
            && post.sender@.last().owner_data == info.client_data && !post.sender@.last().closed
            && post.sender@.last().pending_events@ == Seq::<
            crate::broadcast_video::ClientVideoSenderEvent,
        >::empty() && post.cmds() == (if pre.mid_stream() {
            pre.cmds().push(VideoCommandView::Start { recipients: seq![info.client_id] })
        } else {
            pre.cmds()
        }) && post.source.commands@ == pre.source.commands@.push(
            crate::source::VideoSourceCommand::NotifyClientJoin {
                client_id: info.client_id,
                client_data: info.client_data,
            },
        ).push(crate::source::VideoSourceCommand::RequestPli) && post.pli_request_timestamp == now
            && post.pli_request_timer is None
    })
}

impl Channel {
    /// Adds (or refreshes) a member and subscribes it as a sink to every
    /// audio broadcast not published by the member itself; video stays
    /// opt-in.
    pub fn register_client(&mut self, client: ClientInfo)
        requires
            old(self).wf(),
        ensures
            final(self).wf(),
            final(self).id == old(self).id,
            final(self).video_broadcasts@ == old(self).video_broadcasts@,
            final(self).video_broadcast_update_pending == old(self).video_broadcast_update_pending,
            final(self).spec_has_member(client.client_id),
            (if old(self).spec_has_member(client.client_id) {
                exists|w: int|
                    0 <= w < old(self).clients@.len() && old(self).clients@[w].client_id
                        == client.client_id && final(self).clients@ == old(self).clients@.update(
                        w,
                        client,
                    )
            } else {
                final(self).clients@ == old(self).clients@.push(client)
            }),
            final(self).audio_broadcasts@.len() == old(self).audio_broadcasts@.len(),
            forall|k: int|
                0 <= k < old(self).audio_broadcasts@.len() ==> (if old(self).audio_broadcasts@[k].source_client_id == client.client_id {
                    final(self).audio_broadcasts@[k] == old(self).audio_broadcasts@[k]
                } else {
                    audio_register_effect(
                        old(self).audio_broadcasts@[k],
                        final(self).audio_broadcasts@[k],
                        client,
                    )
                }),
            member_register_effect(*old(self), *final(self), client),
    {
        match self.find_member(client.client_id) {
            Some(w) => {
                self.clients[w] = client;
                proof {
                    assert forall|a: int, b: int|
                        0 <= a < b < self.clients@.len() implies self.clients@[a].client_id
                        != self.clients@[b].client_id by {
                        assert(old(self).clients@[a].client_id == self.clients@[a].client_id);
                        assert(old(self).clients@[b].client_id == self.clients@[b].client_id);
                    }
                    assert(self.clients@[w as int].client_id == client.client_id);
                }
            },
            None => {
                self.clients.push(client);
                proof {
                    assert(self.clients@[self.clients@.len() - 1].client_id == client.client_id);
                }
            },
        }
        let ghost clients1 = self.clients@;
        let mut k: usize = 0;
        while k < self.audio_broadcasts.len()
            invariant
                k <= self.audio_broadcasts@.len(),
                self.id == old(self).id,
                self.clients@ == clients1,
                self.video_broadcasts@ == old(self).video_broadcasts@,
                self.video_broadcast_update_pending == old(self).video_broadcast_update_pending,
                self.audio_broadcasts@.len() == old(self).audio_broadcasts@.len(),
                old(self).wf(),
                forall|a: int, b: int|
                    0 <= a < b < clients1.len() ==> clients1[a].client_id
                        != clients1[b].client_id,
                forall|j: int|
                    k <= j < self.audio_broadcasts@.len() ==> self.audio_broadcasts@[j] == old(self).audio_broadcasts@[j],
                forall|j: int|
                    0 <= j < k ==> (#[trigger] self.audio_broadcasts@[j]).wf()
                        && self.audio_broadcasts@[j].mode == AudioBroadcastMode::Channel,
                forall|j: int|
                    0 <= j < k ==> (if old(self).audio_broadcasts@[j].source_client_id
                        == client.client_id {
                        self.audio_broadcasts@[j] == old(self).audio_broadcasts@[j]
                    } else {
                        audio_register_effect(
                            old(self).audio_broadcasts@[j],
                            (#[trigger] self.audio_broadcasts@[j]),
                            client,
                        )
                    }),
            decreases self.audio_broadcasts@.len() - k,
        {
            if self.audio_broadcasts[k].source_client_id() != client.client_id {
                self.audio_broadcasts[k].register_client(&client);
            }
            k = k + 1;
        }
        proof {
            assert forall|i: int, j: int|
                0 <= i < j < self.audio_broadcasts@.len() implies self.audio_broadcasts@[i].source_client_id != self.audio_broadcasts@[j].source_client_id by {
                assert(self.audio_broadcasts@[i].source_client_id == old(self).audio_broadcasts@[i].source_client_id);
                assert(self.audio_broadcasts@[j].source_client_id == old(self).audio_broadcasts@[j].source_client_id);
            }
        }
    }

    /// Runs one timeout test over every broadcast of the channel; the host
    /// drives this from its periodic sweep.
    pub fn sweep_timeouts(&mut self, now: u64)
        requires
            old(self).wf(),
        ensures
            final(self).wf(),
            final(self).id == old(self).id,
            final(self).clients@ == old(self).clients@,
            final(self).video_broadcast_update_pending == old(self).video_broadcast_update_pending,
            final(self).audio_broadcasts@.len() == old(self).audio_broadcasts@.len(),
            final(self).video_broadcasts@.len() == old(self).video_broadcasts@.len(),
            forall|k: int|
                0 <= k < old(self).audio_broadcasts@.len() ==> audio_timeout_effect(
                    old(self).audio_broadcasts@[k],
                    final(self).audio_broadcasts@[k],
                    now,
                ),
            forall|k: int|
                0 <= k < old(self).video_broadcasts@.len() ==> video_timeout_effect(
                    old(self).video_broadcasts@[k],
                    final(self).video_broadcasts@[k],
                    now,
                ),
            sweep_effect(*old(self), *final(self), now),
    {
        let mut k: usize = 0;
        while k < self.audio_broadcasts.len()
            invariant
                k <= self.audio_broadcasts@.len(),
                self.id == old(self).id,
                self.clients@ == old(self).clients@,
                self.video_broadcasts@ == old(self).video_broadcasts@,
                self.video_broadcast_update_pending == old(self).video_broadcast_update_pending,
                self.audio_broadcasts@.len() == old(self).audio_broadcasts@.len(),
                old(self).wf(),
                forall|j: int|
                    k <= j < self.audio_broadcasts@.len() ==> self.audio_broadcasts@[j] == old(self).audio_broadcasts@[j],
                forall|j: int|
                    0 <= j < k ==> audio_timeout_effect(
                        old(self).audio_broadcasts@[j],
                        (#[trigger] self.audio_broadcasts@[j]),
                        now,
                    ),
                forall|j: int|
                    0 <= j < k ==> (#[trigger] self.audio_broadcasts@[j]).wf()
                        && self.audio_broadcasts@[j].mode == AudioBroadcastMode::Channel,
            decreases self.audio_broadcasts@.len() - k,
        {
            self.audio_broadcasts[k].test_timeout(now);
            k = k + 1;
        }
        let ghost audio1 = self.audio_broadcasts@;
        let mut k: usize = 0;
        while k < self.video_broadcasts.len()
            invariant
                k <= self.video_broadcasts@.len(),
                self.id == old(self).id,
                self.clients@ == old(self).clients@,
                self.audio_broadcasts@ == audio1,
                self.video_broadcast_update_pending == old(self).video_broadcast_update_pending,
                self.video_broadcasts@.len() == old(self).video_broadcasts@.len(),
                old(self).wf(),
                forall|j: int|
                    k <= j < self.video_broadcasts@.len() ==> self.video_broadcasts@[j] == old(self).video_broadcasts@[j],
                forall|j: int|
                    0 <= j < k ==> video_timeout_effect(
                        old(self).video_broadcasts@[j],
                        (#[trigger] self.video_broadcasts@[j]),
                        now,
                    ),
                forall|j: int| 0 <= j < k ==> (#[trigger] self.video_broadcasts@[j]).wf(),
            decreases self.video_broadcasts@.len() - k,
        {
            self.video_broadcasts[k].test_timeout(now);
            k = k + 1;
        }
        proof {
            assert forall|i: int, j: int|
                0 <= i < j < self.audio_broadcasts@.len() implies self.audio_broadcasts@[i].source_client_id != self.audio_broadcasts@[j].source_client_id by {
                assert(self.audio_broadcasts@[i].source_client_id == old(self).audio_broadcasts@[i].source_client_id);
                assert(self.audio_broadcasts@[j].source_client_id == old(self).audio_broadcasts@[j].source_client_id);
            }
            assert forall|i: int, j: int|
                0 <= i < j < self.video_broadcasts@.len() implies !(self.video_broadcasts@[i].mode
                == self.video_broadcasts@[j].mode && self.video_broadcasts@[i].source_client_id
                == self.video_broadcasts@[j].source_client_id) by {
                assert(self.video_broadcasts@[i].mode == old(self).video_broadcasts@[i].mode
                    && self.video_broadcasts@[i].source_client_id == old(self).video_broadcasts@[i].source_client_id);
                assert(self.video_broadcasts@[j].mode == old(self).video_broadcasts@[j].mode
                    && self.video_broadcasts@[j].source_client_id == old(self).video_broadcasts@[j].source_client_id);
            }
        }
    }

    /// An explicit opt-in to a video broadcast: attaches the member as a
    /// sink of the target's broadcast of that kind.
    pub fn join_video_broadcast(
        &mut self,
        client_id: u32,
        target_client_id: u32,
        broadcast_type: VideoBroadcastMode,
        now: u64,
    ) -> (r: VideoBroadcastJoinResult)
        requires
            old(self).wf(),
            now + crate::broadcast_video::pli_min_request_interval() <= u64::MAX,
        ensures
            final(self).wf(),
            final(self).id == old(self).id,
            final(self).clients@ == old(self).clients@,
            final(self).audio_broadcasts@ == old(self).audio_broadcasts@,
            final(self).video_broadcast_update_pending == old(self).video_broadcast_update_pending,
            r == (if !old(self).spec_has_member(client_id) {
                VideoBroadcastJoinResult::InvalidClient
            } else if !old(self).spec_has_video_broadcast(target_client_id, broadcast_type) {
                VideoBroadcastJoinResult::InvalidBroadcast
            } else {
                VideoBroadcastJoinResult::Success
            }),
            final(self).video_broadcasts@.len() == old(self).video_broadcasts@.len(),
            (if r is Success {
                exists|w: int, k: int|
                    0 <= w < old(self).clients@.len() && old(self).clients@[w].client_id
                        == client_id && 0 <= k < old(self).video_broadcasts@.len() && old(self).video_broadcasts@[k].source_client_id == target_client_id && old(self).video_broadcasts@[k].mode == broadcast_type && video_register_effect(
                        old(self).video_broadcasts@[k],
                        final(self).video_broadcasts@[k],
                        old(self).clients@[w],
                        now,
                    ) && (forall|j: int|
                        0 <= j < old(self).video_broadcasts@.len() && j != k ==> final(self).video_broadcasts@[j] == old(self).video_broadcasts@[j])
            } else {
                final(self).video_broadcasts@ == old(self).video_broadcasts@
            }),
            join_video_effect(
                *old(self),
                *final(self),
                client_id,
                target_client_id,
                broadcast_type,
                now,
            ),
    {
        let w = match self.find_member(client_id) {
            Some(w) => w,
            None => {
                return VideoBroadcastJoinResult::InvalidClient;
            },
        };
        let info = self.clients[w];
        match self.find_video_broadcast(target_client_id, broadcast_type) {
            Some(k) => {
                self.video_broadcasts[k].register_client(&info, now);
                proof {
                    assert(old(self).clients@[w as int] == info);
                    assert forall|i: int, j: int|
                        0 <= i < j < self.video_broadcasts@.len() implies !(self.video_broadcasts@[i].mode == self.video_broadcasts@[j].mode
                            && self.video_broadcasts@[i].source_client_id
                            == self.video_broadcasts@[j].source_client_id) by {
                        assert(self.video_broadcasts@[i].mode == old(self).video_broadcasts@[i].mode && self.video_broadcasts@[i].source_client_id == old(self).video_broadcasts@[i].source_client_id);
                        assert(self.video_broadcasts@[j].mode == old(self).video_broadcasts@[j].mode && self.video_broadcasts@[j].source_client_id == old(self).video_broadcasts@[j].source_client_id);
                    }
                    let wi = w as int;
                    let ki = k as int;
                    assert(video_register_effect(
                        old(self).video_broadcasts@[ki],
                        self.video_broadcasts@[ki],
                        old(self).clients@[wi],
                        now,
                    ));
                    assert(exists|w0: int, k0: int|
                        0 <= w0 < old(self).clients@.len() && old(self).clients@[w0].client_id
                            == client_id && 0 <= k0 < old(self).video_broadcasts@.len() && old(self).video_broadcasts@[k0].source_client_id == target_client_id && old(self).video_broadcasts@[k0].mode == broadcast_type && video_register_effect(
                            old(self).video_broadcasts@[k0],
                            self.video_broadcasts@[k0],
                            old(self).clients@[w0],
                            now,
                        ) && (forall|j: int|
                            0 <= j < old(self).video_broadcasts@.len() && j != k0 ==> self.video_broadcasts@[j] == old(self).video_broadcasts@[j])) by {
                        assert(0 <= wi < old(self).clients@.len() && old(self).clients@[wi].client_id == client_id && 0 <= ki < old(self).video_broadcasts@.len() && old(self).video_broadcasts@[ki].source_client_id == target_client_id && old(self).video_broadcasts@[ki].mode == broadcast_type && video_register_effect(
                            old(self).video_broadcasts@[ki],
                            self.video_broadcasts@[ki],
                            old(self).clients@[wi],
                            now,
                        ) && (forall|j: int|
                            0 <= j < old(self).video_broadcasts@.len() && j != ki ==> self.video_broadcasts@[j] == old(self).video_broadcasts@[j]));
                    }
                }
                VideoBroadcastJoinResult::Success
            },
            None => VideoBroadcastJoinResult::InvalidBroadcast,
        }
    }

    /// An explicit opt-out: detaches the member from the target's video
    /// broadcast, which also tells the broadcast's source about the leave.
    pub fn leave_video_broadcast(
        &mut self,
        client_id: u32,
        target_client_id: u32,
        broadcast_type: VideoBroadcastMode,
    )
        requires
            old(self).wf(),
        ensures
            final(self).wf(),
            final(self).id == old(self).id,
            final(self).clients@ == old(self).clients@,
            final(self).audio_broadcasts@ == old(self).audio_broadcasts@,
            final(self).video_broadcast_update_pending == old(self).video_broadcast_update_pending,
            final(self).video_broadcasts@.len() == old(self).video_broadcasts@.len(),
            (if old(self).spec_has_video_broadcast(target_client_id, broadcast_type) {
                exists|k: int|
                    0 <= k < old(self).video_broadcasts@.len() && old(self).video_broadcasts@[k].source_client_id == target_client_id && old(self).video_broadcasts@[k].mode == broadcast_type && video_remove_effect(
                        old(self).video_broadcasts@[k],
                        final(self).video_broadcasts@[k],
                        client_id,
                    ) && (forall|j: int|
                        0 <= j < old(self).video_broadcasts@.len() && j != k ==> final(self).video_broadcasts@[j] == old(self).video_broadcasts@[j])
            } else {
                final(self).video_broadcasts@ == old(self).video_broadcasts@
            }),
            leave_video_effect(
                *old(self),
                *final(self),
                client_id,
                target_client_id,
                broadcast_type,
            ),
    {
        match self.find_video_broadcast(target_client_id, broadcast_type) {
            Some(k) => {
                self.video_broadcasts[k].remove_client(client_id);
                proof {
                    assert forall|i: int, j: int|
                        0 <= i < j < self.video_broadcasts@.len() implies !(self.video_broadcasts@[i].mode == self.video_broadcasts@[j].mode
                            && self.video_broadcasts@[i].source_client_id
                            == self.video_broadcasts@[j].source_client_id) by {
                        assert(self.video_broadcasts@[i].mode == old(self).video_broadcasts@[i].mode && self.video_broadcasts@[i].source_client_id == old(self).video_broadcasts@[i].source_client_id);
                        assert(self.video_broadcasts@[j].mode == old(self).video_broadcasts@[j].mode && self.video_broadcasts@[j].source_client_id == old(self).video_broadcasts@[j].source_client_id);
                    }
                }
            },
            None => {},
        }
    }
}


/// Whether `b` is some engine of `olds` with this client id removed.
pub open spec fn audio_removed_from_some(
    olds: Seq<ClientAudioBroadcaster>,
    b: ClientAudioBroadcaster,
    client_id: u32,
) -> bool {
    exists|j0: int|
        0 <= j0 < olds.len() && #[trigger] audio_remove_effect(olds[j0], b, client_id)
}

/// Whether `b` is some engine of `olds` with this client id removed.
pub open spec fn video_removed_from_some(
    olds: Seq<ClientVideoBroadcaster>,
    b: ClientVideoBroadcaster,
    client_id: u32,
) -> bool {
    exists|j0: int|
        0 <= j0 < olds.len() && #[trigger] video_remove_effect(olds[j0], b, client_id)
}

/// The sinks a fresh audio broadcast gets back-filled with: every member
/// but the publisher that can receive audio, in membership order.
pub open spec fn audio_backfill(members: Seq<ClientInfo>, owner: u32) -> Seq<AudioSinkAttachment> {
    members.filter(
        |c: ClientInfo| c.client_id != owner && (c.rtc_connection || c.native_connection),
    ).map_values(
        |c: ClientInfo|
            AudioSinkAttachment {
                owner_id: c.client_id,
                owner_data: c.client_data,
                closed: false,
            },
    )
}

/// A just-created channel-audio broadcast: owned by `owner`, reading
/// `stream_id`, alive at `now`, back-filled with the members, with nothing
/// forwarded and nothing commanded yet.
pub open spec fn fresh_audio_engine(
    b: ClientAudioBroadcaster,
    owner: u32,
    data: ClientData,
    stream_id: u32,
    now: u64,
    members: Seq<ClientInfo>,
) -> bool {
    &&& b.mode == AudioBroadcastMode::Channel
    &&& b.source_client_id == owner
    &&& b.source_client_data == data
    &&& b.source.stream_id == stream_id
    &&& b.source.events@ == Seq::<crate::source::AudioSourceEvent>::empty()
    &&& !b.source.ended
    &&& !b.mid_stream()
    &&& b.last_activity == now
    &&& b.cmds() == Seq::<AudioCommandView>::empty()
    &&& b.sender@ == audio_backfill(members, owner)
}

impl Channel {
    /// Removes a member: its own broadcasts are shut down, it leaves every
    /// other broadcast's sink list, and (only when asked to) the members
    /// are owed one coalesced directory update.
    #[verifier::rlimit(60)]
    pub fn unregister_client(&mut self, client_id: u32, update_video_broadcaster_list: bool)
        requires
            old(self).wf(),
        ensures
            final(self).wf(),
            final(self).id == old(self).id,
            !final(self).spec_has_member(client_id),
            (if old(self).spec_has_member(client_id) {
                exists|w: int|
                    0 <= w < old(self).clients@.len() && old(self).clients@[w].client_id
                        == client_id && final(self).clients@ == old(self).clients@.remove(w)
            } else {
                final(self).clients@ == old(self).clients@
            }),
            !final(self).spec_has_audio_broadcast(client_id),
            !final(self).spec_has_video_broadcast(client_id, VideoBroadcastMode::Camera),
            !final(self).spec_has_video_broadcast(client_id, VideoBroadcastMode::Screen),
            final(self).audio_broadcasts@.len() == old(self).audio_broadcasts@.len() - (if old(self).spec_has_audio_broadcast(client_id) {
                1int
            } else {
                0int
            }),
            forall|j: int|
                0 <= j < final(self).audio_broadcasts@.len() ==> audio_removed_from_some(
                    old(self).audio_broadcasts@,
                    #[trigger] final(self).audio_broadcasts@[j],
                    client_id,
                ),
            forall|j: int|
                0 <= j < final(self).video_broadcasts@.len() ==> video_removed_from_some(
                    old(self).video_broadcasts@,
                    #[trigger] final(self).video_broadcasts@[j],
                    client_id,
                ),
            (if update_video_broadcaster_list {
                final(self).video_broadcast_update_pending == (old(self).video_broadcast_update_pending || old(self).spec_has_video_broadcast(
                    client_id,
                    VideoBroadcastMode::Camera,
                ) || old(self).spec_has_video_broadcast(client_id, VideoBroadcastMode::Screen))
            } else {
                final(self).video_broadcast_update_pending == old(self).video_broadcast_update_pending
            }),
            member_unregister_effect(
                *old(self),
                *final(self),
                client_id,
                update_video_broadcaster_list,
            ),
    {
        match self.find_member(client_id) {
            Some(w) => {
                self.clients.remove(w);
                proof {
                    assert forall|k: int|
                        0 <= k < self.clients@.len() implies self.clients@[k].client_id
                        != client_id by {
                        if k < w {
                            assert(self.clients@[k] == old(self).clients@[k]);
                        } else {
                            assert(self.clients@[k] == old(self).clients@[k + 1]);
                        }
                    }
                    assert forall|a: int, b: int|
                        0 <= a < b < self.clients@.len() implies self.clients@[a].client_id
                        != self.clients@[b].client_id by {
                        let a0 = if a < w {
                            a
                        } else {
                            a + 1
                        };
                        let b0 = if b < w {
                            b
                        } else {
                            b + 1
                        };
                        assert(self.clients@[a] == old(self).clients@[a0]);
                        assert(self.clients@[b] == old(self).clients@[b0]);
                    }
                }
            },
            None => {},
        }
        let ghost clients1 = self.clients@;

        let mut update = update_video_broadcaster_list;
        if !update && !self.video_broadcast_update_pending {
            self.video_broadcast_update_pending = true;
            update = true;
        } else {
            update = false;
        }

        self.shutdown_broadcast_audio(client_id);
        self.shutdown_broadcast_video(client_id, VideoBroadcastMode::Camera);
        self.shutdown_broadcast_video(client_id, VideoBroadcastMode::Screen);

        if update {
            self.video_broadcast_update_pending = false;
        }
        let ghost audio1 = self.audio_broadcasts@;
        let ghost video1 = self.video_broadcasts@;
        let ghost pending1 = self.video_broadcast_update_pending;

        let mut k: usize = 0;
        while k < self.audio_broadcasts.len()
            invariant
                k <= self.audio_broadcasts@.len(),
                self.id == old(self).id,
                self.clients@ == clients1,
                self.video_broadcasts@ == video1,
                self.video_broadcast_update_pending == pending1,
                self.audio_broadcasts@.len() == audio1.len(),
                forall|i: int, j: int|
                    0 <= i < j < audio1.len() ==> audio1[i].source_client_id
                        != audio1[j].source_client_id,
                forall|j: int| 0 <= j < audio1.len() ==> (#[trigger] audio1[j]).wf()
                    && audio1[j].mode == AudioBroadcastMode::Channel,
                forall|j: int| 0 <= j < audio1.len() ==> audio1[j].source_client_id != client_id,
                forall|j: int|
                    k <= j < self.audio_broadcasts@.len() ==> self.audio_broadcasts@[j]
                        == audio1[j],
                forall|j: int|
                    0 <= j < k ==> audio_remove_effect(
                        audio1[j],
                        (#[trigger] self.audio_broadcasts@[j]),
                        client_id,
                    ),
                forall|j: int|
                    0 <= j < k ==> (#[trigger] self.audio_broadcasts@[j]).wf()
                        && self.audio_broadcasts@[j].mode == AudioBroadcastMode::Channel
                        && self.audio_broadcasts@[j].source_client_id
                        == audio1[j].source_client_id,
            decreases self.audio_broadcasts@.len() - k,
        {
            self.audio_broadcasts[k].remove_client(client_id);
            k = k + 1;
        }
        let ghost audio2 = self.audio_broadcasts@;

        let mut k: usize = 0;
        while k < self.video_broadcasts.len()
            invariant
                k <= self.video_broadcasts@.len(),
                self.id == old(self).id,
                self.clients@ == clients1,
                self.audio_broadcasts@ == audio2,
                self.video_broadcast_update_pending == pending1,
                self.video_broadcasts@.len() == video1.len(),
                forall|i: int, j: int|
                    0 <= i < j < video1.len() ==> !(video1[i].mode == video1[j].mode
                        && video1[i].source_client_id == video1[j].source_client_id),
                forall|j: int| 0 <= j < video1.len() ==> (#[trigger] video1[j]).wf(),
                forall|j: int|
                    0 <= j < video1.len() ==> video1[j].source_client_id != client_id || !(
                    video1[j].mode == VideoBroadcastMode::Camera || video1[j].mode
                        == VideoBroadcastMode::Screen),
                forall|j: int|
                    k <= j < self.video_broadcasts@.len() ==> self.video_broadcasts@[j]
                        == video1[j],
                forall|j: int|
                    0 <= j < k ==> video_remove_effect(
                        video1[j],
                        (#[trigger] self.video_broadcasts@[j]),
                        client_id,
                    ),
                forall|j: int|
                    0 <= j < k ==> (#[trigger] self.video_broadcasts@[j]).wf()
                        && self.video_broadcasts@[j].mode == video1[j].mode
                        && self.video_broadcasts@[j].source_client_id
                        == video1[j].source_client_id,
            decreases self.video_broadcasts@.len() - k,
        {
            self.video_broadcasts[k].remove_client(client_id);
            k = k + 1;
        }
        proof {
            assert forall|j: int|
                0 <= j < self.audio_broadcasts@.len() implies audio_removed_from_some(
                old(self).audio_broadcasts@,
                #[trigger] self.audio_broadcasts@[j],
                client_id,
            ) by {
                assert(audio_remove_effect(audio1[j], self.audio_broadcasts@[j], client_id));
                if old(self).spec_has_audio_broadcast(client_id) {
                    let k0 = choose|k0: int|
                        0 <= k0 < old(self).audio_broadcasts@.len() && old(self).audio_broadcasts@[k0].source_client_id == client_id && audio1 == old(self).audio_broadcasts@.remove(k0);
                    let j0 = if j < k0 {
                        j
                    } else {
                        j + 1
                    };
                    assert(audio1[j] == old(self).audio_broadcasts@[j0]);
                    assert(audio_remove_effect(
                        old(self).audio_broadcasts@[j0],
                        self.audio_broadcasts@[j],
                        client_id,
                    ));
                } else {
                    assert(audio1[j] == old(self).audio_broadcasts@[j]);
                    assert(audio_remove_effect(
                        old(self).audio_broadcasts@[j],
                        self.audio_broadcasts@[j],
                        client_id,
                    ));
                }
            }
            assert forall|j: int|
                0 <= j < self.video_broadcasts@.len() implies video_removed_from_some(
                old(self).video_broadcasts@,
                #[trigger] self.video_broadcasts@[j],
                client_id,
            ) by {
                assert(video_remove_effect(video1[j], self.video_broadcasts@[j], client_id));
                let l0 = old(self).video_broadcasts@;
                if old(self).spec_has_video_broadcast(client_id, VideoBroadcastMode::Camera)
                    || old(self).spec_has_video_broadcast(client_id, VideoBroadcastMode::Screen) {
                    assert(exists|j0: int| 0 <= j0 < l0.len() && video1[j] == l0[j0]) by {
                        lemma_double_remove_membership(l0, video1, j);
                    }
                    let j0 = choose|j0: int| 0 <= j0 < l0.len() && video1[j] == l0[j0];
                    assert(video_remove_effect(l0[j0], self.video_broadcasts@[j], client_id));
                } else {
                    assert(video1[j] == l0[j]);
                    assert(video_remove_effect(l0[j], self.video_broadcasts@[j], client_id));
                }
            }
        }
    }
}

/// Every element of a sequence reached from another by removals is an
/// element of the original.
proof fn lemma_double_remove_membership(
    l0: Seq<ClientVideoBroadcaster>,
    l2: Seq<ClientVideoBroadcaster>,
    j: int,
)
    requires
        0 <= j < l2.len(),
        l2 == l0 || (exists|k: int| 0 <= k < l0.len() && l2 == l0.remove(k)) || (exists|
            k1: int,
            k2: int,
            lmid: Seq<ClientVideoBroadcaster>,
        |
            0 <= k1 < l0.len() && lmid == l0.remove(k1) && 0 <= k2 < lmid.len() && l2
                == lmid.remove(k2)),
    ensures
        exists|j0: int| 0 <= j0 < l0.len() && l2[j] == l0[j0],
{
    if l2 == l0 {
        assert(l2[j] == l0[j]);
    } else if exists|k: int| 0 <= k < l0.len() && l2 == l0.remove(k) {
        let k = choose|k: int| 0 <= k < l0.len() && l2 == l0.remove(k);
        let j0 = if j < k {
            j
        } else {
            j + 1
        };
        assert(l2[j] == l0[j0]);
    } else {
        let (k1, k2, lmid): (int, int, Seq<ClientVideoBroadcaster>) = choose|
            k1: int,
            k2: int,
            lmid: Seq<ClientVideoBroadcaster>,
        |
            0 <= k1 < l0.len() && lmid == l0.remove(k1) && 0 <= k2 < lmid.len() && l2
                == lmid.remove(k2);
        let jm = if j < k2 {
            j
        } else {
            j + 1
        };
        assert(l2[j] == lmid[jm]);
        let j0 = if jm < k1 {
            jm
        } else {
            jm + 1
        };
        assert(lmid[jm] == l0[j0]);
    }
}


impl Channel {
    /// Starts (or restarts) this member's channel-audio broadcast: any
    /// prior audio broadcast of the member is torn down first, a fresh one
    /// is created from the member's audio source, and every other member
    /// that can receive audio is back-filled as a sink.
    #[verifier::rlimit(60)]
    pub fn broadcast_client_audio(&mut self, client_id: u32, stream_id: u32, now: u64) -> (r:
        BroadcastStartResult)
        requires
            old(self).wf(),
        ensures
            final(self).wf(),
            final(self).id == old(self).id,
            final(self).clients@ == old(self).clients@,
            final(self).video_broadcasts@ == old(self).video_broadcasts@,
            final(self).video_broadcast_update_pending == old(self).video_broadcast_update_pending,
            r == (if !old(self).spec_has_member(client_id) {
                BroadcastStartResult::InvalidClient
            } else if !(exists|w: int|
                0 <= w < old(self).clients@.len() && old(self).clients@[w].client_id == client_id
                    && (#[trigger] old(self).clients@[w]).can_source_audio()) {
                BroadcastStartResult::ClientHasNoSource
            } else {
                BroadcastStartResult::Succeeded
            }),
            (if r is InvalidClient {
                final(self).audio_broadcasts@ == old(self).audio_broadcasts@
            } else if r is ClientHasNoSource {
                !final(self).spec_has_audio_broadcast(client_id) && (if old(self).spec_has_audio_broadcast(client_id) {
                    exists|k0: int|
                        0 <= k0 < old(self).audio_broadcasts@.len() && old(self).audio_broadcasts@[k0].source_client_id == client_id && final(self).audio_broadcasts@ == old(self).audio_broadcasts@.remove(k0)
                } else {
                    final(self).audio_broadcasts@ == old(self).audio_broadcasts@
                })
            } else {
                final(self).audio_broadcasts@.len() > 0 && fresh_audio_engine(
                    final(self).audio_broadcasts@.last(),
                    client_id,
                    old(self).clients@[choose|w: int|
                        0 <= w < old(self).clients@.len() && old(self).clients@[w].client_id
                            == client_id].client_data,
                    stream_id,
                    now,
                    old(self).clients@,
                ) && (if old(self).spec_has_audio_broadcast(client_id) {
                    exists|k0: int|
                        0 <= k0 < old(self).audio_broadcasts@.len() && old(self).audio_broadcasts@[k0].source_client_id == client_id && final(self).audio_broadcasts@
                            == old(self).audio_broadcasts@.remove(k0).push(
                            final(self).audio_broadcasts@.last(),
                        )
                } else {
                    final(self).audio_broadcasts@ == old(self).audio_broadcasts@.push(
                        final(self).audio_broadcasts@.last(),
                    )
                })
            }),
            start_audio_effect(*old(self), *final(self), client_id, stream_id, now),
    {
        let w = match self.find_member(client_id) {
            Some(w) => w,
            None => {
                return BroadcastStartResult::InvalidClient;
            },
        };
        let info = self.clients[w];
        self.shutdown_broadcast_audio(client_id);
        if !(info.rtc_connection || info.native_connection) {
            proof {
                assert forall|w2: int|
                    0 <= w2 < old(self).clients@.len() && old(self).clients@[w2].client_id
                        == client_id implies !((#[trigger] old(self).clients@[w2]).can_source_audio()) by {
                    assert(w2 == w as int);
                }
            }
            return BroadcastStartResult::ClientHasNoSource;
        }
        let mut broadcast = crate::broadcast_audio::ClientAudioBroadcaster::new(
            AudioBroadcastMode::Channel,
            AudioSource::new(stream_id),
            client_id,
            info.client_data,
            now,
        );
        let ghost backfill_pred = |c: ClientInfo|
            c.client_id != client_id && (c.rtc_connection || c.native_connection);
        let ghost to_attach = |c: ClientInfo|
            AudioSinkAttachment {
                owner_id: c.client_id,
                owner_data: c.client_data,
                closed: false,
            };
        let mut j: usize = 0;
        proof {
            assert(self.clients@.subrange(0, 0).filter(backfill_pred).map_values(to_attach)
                =~= Seq::<AudioSinkAttachment>::empty());
        }
        while j < self.clients.len()
            invariant
                j <= self.clients@.len(),
                self.clients@ == old(self).clients@,
                broadcast.wf(),
                broadcast.mode == AudioBroadcastMode::Channel,
                broadcast.source_client_id == client_id,
                broadcast.source_client_data == info.client_data,
                broadcast.source.stream_id == stream_id,
                broadcast.source.events@ == Seq::<crate::source::AudioSourceEvent>::empty(),
                !broadcast.source.ended,
                !broadcast.mid_stream(),
                broadcast.last_activity == now,
                broadcast.cmds() == Seq::<AudioCommandView>::empty(),
                backfill_pred == (|c: ClientInfo|
                    c.client_id != client_id && (c.rtc_connection || c.native_connection)),
                to_attach == (|c: ClientInfo|
                    AudioSinkAttachment {
                        owner_id: c.client_id,
                        owner_data: c.client_data,
                        closed: false,
                    }),
                broadcast.sender@ == self.clients@.subrange(0, j as int).filter(
                    backfill_pred,
                ).map_values(to_attach),
                forall|a: int, b: int|
                    0 <= a < b < self.clients@.len() ==> self.clients@[a].client_id
                        != self.clients@[b].client_id,
            decreases self.clients@.len() - j,
        {
            let ghost prefix = self.clients@.subrange(0, j as int);
            let ghost prefix1 = self.clients@.subrange(0, j + 1);
            let member = self.clients[j];
            if member.client_id != client_id {
                proof {
                    crate::lemma_filter_keeps_distinct_keys(
                        prefix,
                        backfill_pred,
                        |c: ClientInfo| c.client_id,
                    );
                    assert forall|x: int|
                        0 <= x < broadcast.sender@.len() implies broadcast.sender@[x].owner_id
                        != member.client_id by {
                        let fc = prefix.filter(backfill_pred)[x];
                        assert(broadcast.sender@[x] == to_attach(fc));
                        assert(prefix.filter(backfill_pred).contains(fc));
                        assert(prefix.contains(fc));
                        let wx = choose|wx: int| 0 <= wx < prefix.len() && prefix[wx] == fc;
                        assert(self.clients@[wx] == fc);
                        assert(self.clients@[j as int] == member);
                        assert(fc.client_id != member.client_id);
                    }
                    if broadcast.spec_contains_client(member.client_id) {
                        let x = choose|x: int|
                            0 <= x < broadcast.sink_ids().len() && broadcast.sink_ids()[x]
                                == member.client_id;
                        assert(broadcast.sender@[x].owner_id == member.client_id);
                        assert(false);
                    }
                }
                broadcast.register_client(&member);
            }
            proof {
                assert(prefix1.drop_last() =~= prefix);
                reveal(Seq::filter);
                if member.client_id != client_id && (member.rtc_connection
                    || member.native_connection) {
                    assert(prefix1.filter(backfill_pred) =~= prefix.filter(backfill_pred).push(
                        member,
                    ));
                    assert(broadcast.sender@ =~= prefix1.filter(backfill_pred).map_values(
                        to_attach,
                    ));
                } else {
                    assert(prefix1.filter(backfill_pred) =~= prefix.filter(backfill_pred));
                    assert(broadcast.sender@ =~= prefix1.filter(backfill_pred).map_values(
                        to_attach,
                    ));
                }
            }
            j = j + 1;
        }
        proof {
            assert(self.clients@.subrange(0, self.clients@.len() as int) =~= self.clients@);
        }
        let ghost engine = broadcast;
        self.audio_broadcasts.push(broadcast);
        proof {
            assert(self.audio_broadcasts@.last() == engine);
            assert forall|a: int, b: int|
                0 <= a < b < self.audio_broadcasts@.len() implies self.audio_broadcasts@[a].source_client_id != self.audio_broadcasts@[b].source_client_id by {
                if b == self.audio_broadcasts@.len() - 1 {
                    assert(self.audio_broadcasts@[a].source_client_id != client_id);
                }
            }
            assert forall|k: int|
                0 <= k < self.audio_broadcasts@.len() implies (
            #[trigger] self.audio_broadcasts@[k]).wf() && self.audio_broadcasts@[k].mode
                == AudioBroadcastMode::Channel by {
                if k == self.audio_broadcasts@.len() - 1 {
                    assert(self.audio_broadcasts@[k] == engine);
                }
            }
            assert(self.spec_has_audio_broadcast(client_id)) by {
                assert(self.audio_broadcasts@[self.audio_broadcasts@.len()
                    - 1].source_client_id == client_id);
            }
            let wc = choose|w2: int|
                0 <= w2 < old(self).clients@.len() && old(self).clients@[w2].client_id
                    == client_id;
            assert(old(self).clients@[w as int].client_id == client_id);
            assert(wc == w as int);
        }
        BroadcastStartResult::Succeeded
    }

    /// Starts (or restarts) this member's video broadcast of the given
    /// kind: any prior one with the same key is torn down first, a fresh
    /// one is created from the member's video source with the initial
    /// configuration applied, and the members are owed a directory update.
    /// Peers are not auto-subscribed; video is opt-in.
    pub fn broadcast_client_video(
        &mut self,
        client_id: u32,
        stream_id: u32,
        video_type: VideoBroadcastMode,
        config: &VideoBroadcastOptions,
        now: u64,
    ) -> (r: BroadcastStartResult)
        requires
            old(self).wf(),
            now + crate::broadcast_video::pli_min_request_interval() <= u64::MAX,
        ensures
            final(self).wf(),
            final(self).id == old(self).id,
            final(self).clients@ == old(self).clients@,
            final(self).audio_broadcasts@ == old(self).audio_broadcasts@,
            r == (if !old(self).spec_has_member(client_id) {
                BroadcastStartResult::InvalidClient
            } else if !(exists|w: int|
                0 <= w < old(self).clients@.len() && old(self).clients@[w].client_id == client_id
                    && (#[trigger] old(self).clients@[w]).can_source_video()) {
                BroadcastStartResult::ClientHasNoSource
            } else {
                BroadcastStartResult::Succeeded
            }),
            (if r is InvalidClient {
                final(self).video_broadcasts@ == old(self).video_broadcasts@ && final(self).video_broadcast_update_pending == old(self).video_broadcast_update_pending
            } else if r is ClientHasNoSource {
                !final(self).spec_has_video_broadcast(client_id, video_type)
            } else {
                final(self).video_broadcast_update_pending && final(self).video_broadcasts@.len() > 0 && ({
                    let b = final(self).video_broadcasts@.last();
                    &&& b.mode == video_type
                    &&& b.source_client_id == client_id
                    &&& b.source.stream_id == stream_id
                    &&& b.source.events@ == Seq::<crate::source::VideoSourceEvent>::empty()
                    &&& b.sender@ == Seq::<crate::broadcast_video::VideoSinkAttachment>::empty()
                    &&& b.cmds() == Seq::<VideoCommandView>::empty()
                    &&& !b.mid_stream()
                    &&& b.pli_request_timestamp == now
                    &&& b.pli_request_timer is None
                    &&& b.auto_keyframe_interval == (if config.update_mask & 0x2 > 0 {
                        config.keyframe_interval
                    } else {
                        7000u32
                    })
                    &&& b.source.bitrate_limit == (if config.update_mask & 0x1 > 0 && config.bitrate != 0 {
                        Some(config.bitrate)
                    } else {
                        None::<u32>
                    })
                    &&& b.fps.spec_time_base() == now / 1000
                    &&& b.fps.spec_index() == 0
                    &&& (forall|j: int| 0 <= j < 32 ==> b.fps.slots()[j] == 0u8)
                })
            }),
            start_video_effect(
                *old(self),
                *final(self),
                client_id,
                stream_id,
                video_type,
                *config,
                now,
            ),
    {
        let w = match self.find_member(client_id) {
            Some(w) => w,
            None => {
                return BroadcastStartResult::InvalidClient;
            },
        };
        let info = self.clients[w];
        self.shutdown_broadcast_video(client_id, video_type);
        if !info.rtc_connection {
            proof {
                assert forall|w2: int|
                    0 <= w2 < old(self).clients@.len() && old(self).clients@[w2].client_id
                        == client_id implies !((#[trigger] old(self).clients@[w2]).can_source_video()) by {
                    assert(w2 == w as int);
                }
            }
            return BroadcastStartResult::ClientHasNoSource;
        }
        let mut broadcast = crate::broadcast_video::ClientVideoBroadcaster::new(
            video_type,
            VideoSource::new(stream_id),
            client_id,
            info.client_data,
            now,
        );
        match broadcast.configure(config) {
            Ok(()) => {},
            Err(error) => {
                return BroadcastStartResult::ConfigError(error);
            },
        }
        self.video_broadcasts.push(broadcast);
        proof {
            assert forall|a: int, b: int|
                0 <= a < b < self.video_broadcasts@.len() implies !(self.video_broadcasts@[a].mode
                == self.video_broadcasts@[b].mode && self.video_broadcasts@[a].source_client_id
                == self.video_broadcasts@[b].source_client_id) by {
                if b == self.video_broadcasts@.len() - 1 {
                    assert(!(self.video_broadcasts@[a].source_client_id == client_id
                        && self.video_broadcasts@[a].mode == video_type));
                }
            }
        }
        self.broadcast_video_broadcast_update();
        BroadcastStartResult::Succeeded
    }
}


/// What adding (or refreshing) a member changes on a channel: membership
/// updated in place or appended, every audio broadcast not published by
/// the member offered the new sink, video untouched.
pub open spec fn member_register_effect(pre: Channel, post: Channel, client: ClientInfo) -> bool {
    &&& post.id == pre.id
    &&& post.video_broadcasts@ == pre.video_broadcasts@
    &&& post.video_broadcast_update_pending == pre.video_broadcast_update_pending
    &&& post.spec_has_member(client.client_id)
    &&& (if pre.spec_has_member(client.client_id) {
        exists|w: int|
            0 <= w < pre.clients@.len() && pre.clients@[w].client_id == client.client_id
                && post.clients@ == pre.clients@.update(w, client)
    } else {
        post.clients@ == pre.clients@.push(client)
    })
    &&& post.audio_broadcasts@.len() == pre.audio_broadcasts@.len()
    &&& forall|k: int|
        0 <= k < pre.audio_broadcasts@.len() ==> (if pre.audio_broadcasts@[k].source_client_id
            == client.client_id {
            post.audio_broadcasts@[k] == pre.audio_broadcasts@[k]
        } else {
            audio_register_effect(
                pre.audio_broadcasts@[k],
                (#[trigger] post.audio_broadcasts@[k]),
                client,
            )
        })
}

/// What one timeout sweep at `now` changes on a channel: every broadcast
/// advanced by its own timeout test, nothing else.
pub open spec fn sweep_effect(pre: Channel, post: Channel, now: u64) -> bool {
    &&& post.id == pre.id
    &&& post.clients@ == pre.clients@
    &&& post.video_broadcast_update_pending == pre.video_broadcast_update_pending
    &&& post.audio_broadcasts@.len() == pre.audio_broadcasts@.len()
    &&& post.video_broadcasts@.len() == pre.video_broadcasts@.len()
    &&& forall|k: int|
        0 <= k < pre.audio_broadcasts@.len() ==> audio_timeout_effect(
            pre.audio_broadcasts@[k],
            (#[trigger] post.audio_broadcasts@[k]),
            now,
        )
    &&& forall|k: int|
        0 <= k < pre.video_broadcasts@.len() ==> video_timeout_effect(
            pre.video_broadcasts@[k],
            (#[trigger] post.video_broadcasts@[k]),
            now,
        )
}

/// What a video-broadcast join changes on a channel: exactly the member's
/// attachment to the target broadcast when member and broadcast exist,
/// nothing otherwise.
pub open spec fn join_video_effect(
    pre: Channel,
    post: Channel,
    client_id: u32,
    target_client_id: u32,
    broadcast_type: VideoBroadcastMode,
    now: u64,
) -> bool {
    &&& post.id == pre.id
    &&& post.clients@ == pre.clients@
    &&& post.audio_broadcasts@ == pre.audio_broadcasts@
    &&& post.video_broadcast_update_pending == pre.video_broadcast_update_pending
    &&& post.video_broadcasts@.len() == pre.video_broadcasts@.len()
    &&& (if pre.spec_has_member(client_id) && pre.spec_has_video_broadcast(
        target_client_id,
        broadcast_type,
    ) {
        exists|w: int, k: int|
            0 <= w < pre.clients@.len() && pre.clients@[w].client_id == client_id && 0 <= k
                < pre.video_broadcasts@.len() && pre.video_broadcasts@[k].source_client_id
                == target_client_id && pre.video_broadcasts@[k].mode == broadcast_type
                && video_register_effect(
                pre.video_broadcasts@[k],
                post.video_broadcasts@[k],
                pre.clients@[w],
                now,
            ) && (forall|j: int|
                0 <= j < pre.video_broadcasts@.len() && j != k ==> post.video_broadcasts@[j]
                    == pre.video_broadcasts@[j])
    } else {
        post.video_broadcasts@ == pre.video_broadcasts@
    })
}

/// What a video-broadcast leave changes on a channel: exactly the
/// detachment (with its upstream leave notification) on the target
/// broadcast, when one exists.
pub open spec fn leave_video_effect(
    pre: Channel,
    post: Channel,
    client_id: u32,
    target_client_id: u32,
    broadcast_type: VideoBroadcastMode,
) -> bool {
    &&& post.id == pre.id
    &&& post.clients@ == pre.clients@
    &&& post.audio_broadcasts@ == pre.audio_broadcasts@
    &&& post.video_broadcast_update_pending == pre.video_broadcast_update_pending
    &&& post.video_broadcasts@.len() == pre.video_broadcasts@.len()
    &&& (if pre.spec_has_video_broadcast(target_client_id, broadcast_type) {
        exists|k: int|
            0 <= k < pre.video_broadcasts@.len() && pre.video_broadcasts@[k].source_client_id
                == target_client_id && pre.video_broadcasts@[k].mode == broadcast_type
                && video_remove_effect(
                pre.video_broadcasts@[k],
                post.video_broadcasts@[k],
                client_id,
            ) && (forall|j: int|
                0 <= j < pre.video_broadcasts@.len() && j != k ==> post.video_broadcasts@[j]
                    == pre.video_broadcasts@[j])
    } else {
        post.video_broadcasts@ == pre.video_broadcasts@
    })
}

/// What removing a member changes on a channel: the membership entry
/// leaves, the member's own broadcasts are gone, every surviving broadcast
/// is one of the old ones with the member detached, and the
/// directory-update debt follows the suppression flag.
pub open spec fn member_unregister_effect(
    pre: Channel,
    post: Channel,
    client_id: u32,
    update_video_broadcaster_list: bool,
) -> bool {
    &&& post.id == pre.id
    &&& !post.spec_has_member(client_id)
    &&& (if pre.spec_has_member(client_id) {
        exists|w: int|
            0 <= w < pre.clients@.len() && pre.clients@[w].client_id == client_id
                && post.clients@ == pre.clients@.remove(w)
    } else {
        post.clients@ == pre.clients@
    })
    &&& !post.spec_has_audio_broadcast(client_id)
    &&& !post.spec_has_video_broadcast(client_id, VideoBroadcastMode::Camera)
    &&& !post.spec_has_video_broadcast(client_id, VideoBroadcastMode::Screen)
    &&& post.audio_broadcasts@.len() == pre.audio_broadcasts@.len() - (if pre.spec_has_audio_broadcast(client_id) {
        1int
    } else {
        0int
    })
    &&& forall|j: int|
        0 <= j < post.audio_broadcasts@.len() ==> audio_removed_from_some(
            pre.audio_broadcasts@,
            #[trigger] post.audio_broadcasts@[j],
            client_id,
        )
    &&& forall|j: int|
        0 <= j < post.video_broadcasts@.len() ==> video_removed_from_some(
            pre.video_broadcasts@,
            #[trigger] post.video_broadcasts@[j],
            client_id,
        )
    &&& (if update_video_broadcaster_list {
        post.video_broadcast_update_pending == (pre.video_broadcast_update_pending
            || pre.spec_has_video_broadcast(client_id, VideoBroadcastMode::Camera)
            || pre.spec_has_video_broadcast(client_id, VideoBroadcastMode::Screen))
    } else {
        post.video_broadcast_update_pending == pre.video_broadcast_update_pending
    })
}

/// What starting (or restarting) a member's channel-audio broadcast at
/// `now` changes on a channel: for a non-member nothing; for a member
/// without an audio source only the teardown of its prior broadcast; for a
/// capable member the prior broadcast is replaced by a fresh back-filled
/// engine appended to the list.
pub open spec fn start_audio_effect(
    pre: Channel,
    post: Channel,
    client_id: u32,
    stream_id: u32,
    now: u64,
) -> bool {
    &&& post.id == pre.id
    &&& post.clients@ == pre.clients@
    &&& post.video_broadcasts@ == pre.video_broadcasts@
    &&& post.video_broadcast_update_pending == pre.video_broadcast_update_pending
    &&& (if !pre.spec_has_member(client_id) {
        post.audio_broadcasts@ == pre.audio_broadcasts@
    } else if !(exists|w: int|
        0 <= w < pre.clients@.len() && pre.clients@[w].client_id == client_id && (
        #[trigger] pre.clients@[w]).can_source_audio()) {
        !post.spec_has_audio_broadcast(client_id) && (if pre.spec_has_audio_broadcast(client_id) {
            exists|k0: int|
                0 <= k0 < pre.audio_broadcasts@.len()
                    && pre.audio_broadcasts@[k0].source_client_id == client_id
                    && post.audio_broadcasts@ == pre.audio_broadcasts@.remove(k0)
        } else {
            post.audio_broadcasts@ == pre.audio_broadcasts@
        })
    } else {
        post.audio_broadcasts@.len() > 0 && fresh_audio_engine(
            post.audio_broadcasts@.last(),
            client_id,
            pre.clients@[choose|w: int|
                0 <= w < pre.clients@.len() && pre.clients@[w].client_id
                    == client_id].client_data,
            stream_id,
            now,
            pre.clients@,
        ) && (if pre.spec_has_audio_broadcast(client_id) {
            exists|k0: int|
                0 <= k0 < pre.audio_broadcasts@.len()
                    && pre.audio_broadcasts@[k0].source_client_id == client_id
                    && post.audio_broadcasts@ == pre.audio_broadcasts@.remove(k0).push(
                    post.audio_broadcasts@.last(),
                )
        } else {
            post.audio_broadcasts@ == pre.audio_broadcasts@.push(post.audio_broadcasts@.last())
        })
    })
}

/// What starting (or restarting) a member's video broadcast at `now`
/// changes on a channel: for a non-member nothing; for a member without a
/// video source only the teardown of its prior broadcast of that kind; for
/// a capable member a fresh configured engine is appended, without any
/// auto-subscription, and a directory update is owed.
pub open spec fn start_video_effect(
    pre: Channel,
    post: Channel,
    client_id: u32,
    stream_id: u32,
    video_type: VideoBroadcastMode,
    config: VideoBroadcastOptions,
    now: u64,
) -> bool {
    &&& post.id == pre.id
    &&& post.clients@ == pre.clients@
    &&& post.audio_broadcasts@ == pre.audio_broadcasts@
    &&& (if !pre.spec_has_member(client_id) {
        post.video_broadcasts@ == pre.video_broadcasts@ && post.video_broadcast_update_pending
            == pre.video_broadcast_update_pending
    } else if !(exists|w: int|
        0 <= w < pre.clients@.len() && pre.clients@[w].client_id == client_id && (
        #[trigger] pre.clients@[w]).can_source_video()) {
        !post.spec_has_video_broadcast(client_id, video_type)
    } else {
        post.video_broadcast_update_pending && post.video_broadcasts@.len() > 0 && ({
            let b = post.video_broadcasts@.last();
            &&& b.mode == video_type
            &&& b.source_client_id == client_id
            &&& b.source.stream_id == stream_id
            &&& b.source.events@ == Seq::<crate::source::VideoSourceEvent>::empty()
            &&& b.sender@ == Seq::<crate::broadcast_video::VideoSinkAttachment>::empty()
            &&& b.cmds() == Seq::<VideoCommandView>::empty()
            &&& !b.mid_stream()
            &&& b.pli_request_timestamp == now
            &&& b.pli_request_timer is None
            &&& b.auto_keyframe_interval == (if config.update_mask & 0x2 > 0 {
                config.keyframe_interval
            } else {
                7000u32
            })
            &&& b.source.bitrate_limit == (if config.update_mask & 0x1 > 0 && config.bitrate
                != 0 {
                Some(config.bitrate)
            } else {
                None::<u32>
            })
            &&& b.fps.spec_time_base() == now / 1000
            &&& b.fps.spec_index() == 0
            &&& (forall|j: int| 0 <= j < 32 ==> b.fps.slots()[j] == 0u8)
        })
    })
}

} // verus!
