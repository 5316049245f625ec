//! The video broadcast engine: one publishing client's video stream fanned
//! out to the sinks that opted in.
//!
//! Besides the audio engine's duties this engine tracks keyframes and
//! drives the picture-loss-indication (PLI) control loop: a PLI is sent
//! upstream at once when forced or when the last one lies long enough in
//! the past; otherwise a one-shot timer is armed so that bursts of keyframe
//! requests coalesce into one per rate-limit window.
use vstd::prelude::*;
use crate::VideoCodec;
use crate::fps::FpsCounter;
use crate::fps::slots_after_frame;
use crate::client::ClientInfo;
use crate::source::ClientData;
use crate::source::VideoSource;
use crate::source::VideoSourceCommand;
use crate::source::VideoSourceEvent;

verus! {

/// Which kind of video a broadcast carries.
#[derive(Clone, Copy, Debug, PartialEq, Eq, Structural)]
pub enum VideoBroadcastMode {
    Camera,
    Screen,
}

impl VideoBroadcastMode {
    /// The media kind sinks of this broadcast receive.
    pub fn media_type(self) -> (r: crate::MediaType)
        ensures
            r == (match self {
                VideoBroadcastMode::Camera => crate::MediaType::Video,
                VideoBroadcastMode::Screen => crate::MediaType::VideoScreen,
            }),
    {
        match self {
            VideoBroadcastMode::Camera => crate::MediaType::Video,
            VideoBroadcastMode::Screen => crate::MediaType::VideoScreen,
        }
    }
}

/// Why a video stream stop is signalled to a sink.
#[derive(Clone, Copy, Debug, PartialEq, Eq, Structural)]
pub enum VideoStopReason {
    /// The publisher ended the sequence.
    User,
    /// No packet arrived within the timeout window.
    Timeout,
    /// The attachment itself is going away; no stop notification is owed.
    InternalEnding,
}

/// An event a sink's transport reported back to the broadcast.
#[derive(Clone, Copy, Debug, PartialEq, Eq, Structural)]
pub enum ClientVideoSenderEvent {
    /// The receiver asked for a fresh keyframe.
    RequestPLI,
}

/// A partial update of a video broadcast's configuration: only the fields
/// whose bit is set in `update_mask` are applied.
#[derive(Clone, Copy, Debug, PartialEq, Eq, Structural)]
pub struct VideoBroadcastOptions {
    /// Which fields to apply: bit 0 is the bitrate, bit 1 the keyframe
    /// interval.
    pub update_mask: u16,
    /// Bitrate cap; zero means unlimited.
    pub bitrate: u32,
    /// Interval for forced keyframe requests, in milliseconds; zero
    /// disables them.
    pub keyframe_interval: u32,
}

impl VideoBroadcastOptions {
    /// The bitrate field, when flagged as present.
    pub fn bitrate(&self) -> (r: Option<u32>)
        ensures
            r == (if self.update_mask & 0x1 > 0 {
                Some(self.bitrate)
            } else {
                None::<u32>
            }),
    {
        if (self.update_mask & 0x1) > 0 {
            Some(self.bitrate)
        } else {
            None
        }
    }

    /// The keyframe-interval field, when flagged as present.
    pub fn keyframe_interval(&self) -> (r: Option<u32>)
        ensures
            r == (if self.update_mask & 0x2 > 0 {
                Some(self.keyframe_interval)
            } else {
                None::<u32>
            }),
    {
        if (self.update_mask & 0x2) > 0 {
            Some(self.keyframe_interval)
        } else {
            None
        }
    }
}

/// Rejections of a configuration update; none exist today, but callers
/// already handle the case.
#[derive(Clone, Copy, Debug, PartialEq, Eq, Structural)]
pub enum VideoBroadcastConfigureError {
    Unspecified,
}

/// One sink attached to a video broadcast.
#[derive(Clone, Debug, PartialEq, Eq)]
pub struct VideoSinkAttachment {
    /// The subscribed client's id.
    pub owner_id: u32,
    /// The subscribed client's opaque host handle.
    pub owner_data: ClientData,
    /// Set by the host once the sink's transport is gone; the attachment is
    /// reaped on the next sink sweep.
    pub closed: bool,
    /// Events the sink's transport reported and the broadcast has not
    /// drained yet.
    pub pending_events: Vec<ClientVideoSenderEvent>,
}

/// One command the host must perform against sink transports, recorded in
/// the order the engine decided it.
pub enum VideoSinkCommand {
    /// Signal a stream start to each of these clients.
    Start { recipients: Vec<u32> },
    /// Signal a stream stop to each of these clients.
    Stop { recipients: Vec<u32>, reason: VideoStopReason },
    /// Deliver one packet, in the broadcast's virtual numbering, to each of
    /// these clients.
    Deliver {
        recipients: Vec<u32>,
        payload: Vec<u8>,
        codec: VideoCodec,
        sequence: u16,
        marked: bool,
        timestamp: u32,
    },
}

/// The mathematical value of a [`VideoSinkCommand`].
pub enum VideoCommandView {
    Start { recipients: Seq<u32> },
    Stop { recipients: Seq<u32>, reason: VideoStopReason },
    Deliver {
        recipients: Seq<u32>,
        payload: Seq<u8>,
        codec: VideoCodec,
        sequence: u16,
        marked: bool,
        timestamp: u32,
    },
}

impl View for VideoSinkCommand {
    type V = VideoCommandView;

    open spec fn view(&self) -> VideoCommandView {
        match self {
            VideoSinkCommand::Start { recipients } => VideoCommandView::Start {
                recipients: recipients@,
            },
            VideoSinkCommand::Stop { recipients, reason } => VideoCommandView::Stop {
                recipients: recipients@,
                reason: *reason,
            },
            VideoSinkCommand::Deliver { recipients, payload, codec, sequence, marked, timestamp } => VideoCommandView::Deliver {
                recipients: recipients@,
                payload: payload@,
                codec: *codec,
                sequence: *sequence,
                marked: *marked,
                timestamp: *timestamp,
            },
        }
    }
}

/// The ids of a video sink list, in attachment order.
pub open spec fn video_sink_ids_of(sinks: Seq<VideoSinkAttachment>) -> Seq<u32> {
    sinks.map_values(|s: VideoSinkAttachment| s.owner_id)
}

/// A PLI request is sent at once only when the last one lies more than
/// this far (milliseconds) in the past.
pub open spec fn pli_min_request_interval() -> int {
    500
}

/// No packet for longer than this (milliseconds) counts as a timeout.
pub open spec fn video_timeout_window() -> int {
    5000
}

/// The parts of a video broadcast that a pass over source events changes.
#[verifier::ext_equal]
pub struct VideoPassState {
    /// When the last packet was forwarded; `None` while stopped.
    pub mid: Option<u64>,
    /// When the last keyframe arrived (or was last requested).
    pub last_keyframe: Option<u64>,
    /// When the last PLI went upstream.
    pub pli_timestamp: u64,
    /// The armed one-shot PLI timer deadline, if any.
    pub pli_timer: Option<u64>,
    /// The sink commands recorded so far.
    pub sink_cmds: Seq<VideoCommandView>,
    /// The upstream source commands recorded so far.
    pub source_cmds: Seq<VideoSourceCommand>,
    /// The frame-rate ring's cursor.
    pub fps_index: int,
    /// The frame-rate ring's per-second counts.
    pub fps_slots: Seq<u8>,
}

/// The PLI rate limiter: forced requests, and requests outside the
/// rate-limit window, go upstream at once and re-base the window; otherwise
/// a one-shot timer is armed at the end of the window (once), deferring the
/// request.
pub open spec fn video_pli_request(st: VideoPassState, force: bool, now: u64) -> VideoPassState {
    if force || now > st.pli_timestamp + pli_min_request_interval() {
        VideoPassState {
            pli_timestamp: now,
            pli_timer: None,
            source_cmds: st.source_cmds.push(VideoSourceCommand::RequestPli),
            ..st
        }
    } else if st.pli_timer is None {
        VideoPassState {
            pli_timer: Some((st.pli_timestamp + pli_min_request_interval()) as u64),
            ..st
        }
    } else {
        st
    }
}

/// The state change one non-terminal source event causes; `fps_slot` is
/// the frame-rate ring slot of the second `now` falls into.
pub open spec fn video_step(
    st: VideoPassState,
    ids: Seq<u32>,
    interval: u32,
    e: VideoSourceEvent,
    now: u64,
    fps_slot: int,
) -> VideoPassState {
    match e {
        VideoSourceEvent::Ended => st,
        VideoSourceEvent::SequenceEndSignal => {
            let stopped = if st.mid is Some {
                VideoPassState {
                    mid: None,
                    sink_cmds: st.sink_cmds.push(
                        VideoCommandView::Stop { recipients: ids, reason: VideoStopReason::User },
                    ),
                    ..st
                }
            } else {
                st
            };
            VideoPassState { last_keyframe: None, ..stopped }
        },
        VideoSourceEvent::Packet { payload, timestamp, marked, key_frame, sequence, codec } => {
            let st1 = if st.mid is None {
                VideoPassState {
                    sink_cmds: st.sink_cmds.push(VideoCommandView::Start { recipients: ids }),
                    ..st
                }
            } else {
                st
            };
            let st1f = if marked {
                VideoPassState {
                    fps_index: fps_slot,
                    fps_slots: slots_after_frame(st1.fps_index, st1.fps_slots, fps_slot),
                    ..st1
                }
            } else {
                st1
            };
            let st2 = if key_frame {
                VideoPassState { last_keyframe: Some(now), ..st1f }
            } else if st1f.last_keyframe matches Some(lkf) && interval != 0 && now >= lkf && now
                - lkf >= interval {
                VideoPassState {
                    last_keyframe: Some(now),
                    ..video_pli_request(st1f, false, now)
                }
            } else {
                st1f
            };
            VideoPassState {
                mid: Some(now),
                sink_cmds: st2.sink_cmds.push(
                    VideoCommandView::Deliver {
                        recipients: ids,
                        payload: payload@,
                        codec,
                        sequence,
                        marked,
                        timestamp,
                    },
                ),
                ..st2
            }
        },
    }
}

/// The state after a pass drains `events` in order, stopping at the first
/// `Ended`.
pub open spec fn video_pass_state(
    st: VideoPassState,
    ids: Seq<u32>,
    interval: u32,
    events: Seq<VideoSourceEvent>,
    now: u64,
    fps_slot: int,
) -> VideoPassState
    decreases events.len(),
{
    if events.len() == 0 {
        st
    } else if events[0] is Ended {
        st
    } else {
        video_pass_state(
            video_step(st, ids, interval, events[0], now, fps_slot),
            ids,
            interval,
            events.drop_first(),
            now,
            fps_slot,
        )
    }
}

/// Whether a pass over `events` hits an `Ended` event.
pub open spec fn video_pass_ended(events: Seq<VideoSourceEvent>) -> bool
    decreases events.len(),
{
    if events.len() == 0 {
        false
    } else if events[0] is Ended {
        true
    } else {
        video_pass_ended(events.drop_first())
    }
}

/// The events still queued after a pass: what follows the first `Ended`.
pub open spec fn video_pass_rest(events: Seq<VideoSourceEvent>) -> Seq<VideoSourceEvent>
    decreases events.len(),
{
    if events.len() == 0 {
        Seq::empty()
    } else if events[0] is Ended {
        events.drop_first()
    } else {
        video_pass_rest(events.drop_first())
    }
}

/// The armed PLI timer firing at the end of a pass: a deadline that has
/// passed sends the deferred request as a forced one.
pub open spec fn video_timer_check(st: VideoPassState, now: u64) -> VideoPassState {
    match st.pli_timer {
        Some(deadline) => {
            if now >= deadline {
                video_pli_request(VideoPassState { pli_timer: None, ..st }, true, now)
            } else {
                st
            }
        },
        None => st,
    }
}

/// What one source pass at `now` changes on a video broadcast: the queue
/// is drained up to a terminal end, the pass state follows the event fold,
/// and an armed PLI timer whose deadline passed fires once the queue is
/// drained without a terminal end.
pub open spec fn video_poll_effect(
    pre: ClientVideoBroadcaster,
    post: ClientVideoBroadcaster,
    now: u64,
) -> bool {
    &&& post.mode == pre.mode
    &&& post.sender@ == pre.sender@
    &&& post.auto_keyframe_interval == pre.auto_keyframe_interval
    &&& post.source_client_id == pre.source_client_id
    &&& post.source_client_data == pre.source_client_data
    &&& post.source.stream_id == pre.source.stream_id
    &&& post.source.bitrate_limit == pre.source.bitrate_limit
    &&& post.source.events@ == video_pass_rest(pre.source.events@)
    &&& post.fps.spec_time_base() == pre.fps.spec_time_base()
    &&& ({
        let folded = video_pass_state(
            pre.pass_state(),
            video_sink_ids_of(pre.sender@),
            pre.auto_keyframe_interval,
            pre.source.events@,
            now,
            pre.fps.slot_of(now / 1000),
        );
        post.pass_state() == (if video_pass_ended(pre.source.events@) {
            folded
        } else {
            video_timer_check(folded, now)
        })
    })
}

/// What applying a partial configuration update changes on a video
/// broadcast: only the flagged fields are applied; a flagged bitrate goes
/// upstream (zero lifts the cap) and a flagged keyframe interval is
/// stored.
pub open spec fn video_configure_effect(
    pre: ClientVideoBroadcaster,
    post: ClientVideoBroadcaster,
    options: VideoBroadcastOptions,
) -> bool {
    &&& post.mode == pre.mode
    &&& post.sender@ == pre.sender@
    &&& post.last_received_packet == pre.last_received_packet
    &&& post.last_received_keyframe == pre.last_received_keyframe
    &&& post.pli_request_timestamp == pre.pli_request_timestamp
    &&& post.pli_request_timer == pre.pli_request_timer
    &&& post.source_client_id == pre.source_client_id
    &&& post.source_client_data == pre.source_client_data
    &&& post.cmds() == pre.cmds()
    &&& post.source.stream_id == pre.source.stream_id
    &&& post.source.events@ == pre.source.events@
    &&& (if options.update_mask & 0x1 > 0 {
        post.source.bitrate_limit == (if options.bitrate == 0 {
            None::<u32>
        } else {
            Some(options.bitrate)
        }) && post.source.commands@ == pre.source.commands@.push(
            crate::source::VideoSourceCommand::SetBitrate(post.source.bitrate_limit),
        )
    } else {
        post.source.bitrate_limit == pre.source.bitrate_limit && post.source.commands@
            == pre.source.commands@
    })
    &&& post.auto_keyframe_interval == (if options.update_mask & 0x2 > 0 {
        options.keyframe_interval
    } else {
        pre.auto_keyframe_interval
    })
    &&& post.fps == pre.fps
}

/// The video fan-out engine.
pub struct ClientVideoBroadcaster {
    /// Camera or screen share.
    pub mode: VideoBroadcastMode,
    /// The one source this broadcast drains.
    pub source: VideoSource,
    /// When the last packet was forwarded; `None` while stopped.
    pub last_received_packet: Option<u64>,
    /// When the last keyframe arrived (or was last requested).
    pub last_received_keyframe: Option<u64>,
    /// Interval for forced keyframe requests, in milliseconds; zero
    /// disables them.
    pub auto_keyframe_interval: u32,
    /// The attached sinks, in attachment order.
    pub sender: Vec<VideoSinkAttachment>,
    /// When the last PLI went upstream.
    pub pli_request_timestamp: u64,
    /// The armed one-shot PLI timer deadline, if any.
    pub pli_request_timer: Option<u64>,
    /// The publishing client's id.
    pub source_client_id: u32,
    /// The publishing client's opaque host handle.
    pub source_client_data: ClientData,
    /// Commands the host has not performed yet, oldest first.
    pub commands: Vec<VideoSinkCommand>,
    /// Per-second frame counts of the stream, for diagnostics.
    pub fps: FpsCounter,
}

impl ClientVideoBroadcaster {
    /// The ids of the attached sinks, in attachment order.
    pub open spec fn sink_ids(self) -> Seq<u32> {
        video_sink_ids_of(self.sender@)
    }

    /// Whether a sink for this client is attached.
    pub open spec fn spec_contains_client(self, client_id: u32) -> bool {
        self.sink_ids().contains(client_id)
    }

    /// Whether the broadcast has forwarded a packet since the last stop.
    pub open spec fn mid_stream(self) -> bool {
        self.last_received_packet is Some
    }

    /// The recorded sink commands, as mathematical values.
    pub open spec fn cmds(self) -> Seq<VideoCommandView> {
        self.commands@.map_values(|c: VideoSinkCommand| c@)
    }

    /// The parts of this broadcast that a source pass changes.
    pub open spec fn pass_state(self) -> VideoPassState {
        VideoPassState {
            mid: self.last_received_packet,
            last_keyframe: self.last_received_keyframe,
            pli_timestamp: self.pli_request_timestamp,
            pli_timer: self.pli_request_timer,
            sink_cmds: self.cmds(),
            source_cmds: self.source.commands@,
            fps_index: self.fps.spec_index(),
            fps_slots: self.fps.slots(),
        }
    }

    /// At most one sink per client id, and the PLI window base stays far
    /// enough from the clock's end that a deadline can be computed.
    pub open spec fn wf(self) -> bool {
        &&& forall|i: int, j: int|
            0 <= i < j < self.sender@.len() ==> self.sender@[i].owner_id
                != self.sender@[j].owner_id
        &&& self.pli_request_timestamp + pli_min_request_interval() <= u64::MAX
        &&& self.fps.well_formed()
    }

    /// A fresh broadcast owning `source`, created at `now`, with no sinks
    /// and nothing forwarded yet; forced keyframes default to every seven
    /// seconds.
    pub fn new(
        mode: VideoBroadcastMode,
        source: VideoSource,
        client_id: u32,
        client_data: ClientData,
        now: u64,
    ) -> (r: ClientVideoBroadcaster)
        requires
            now + pli_min_request_interval() <= u64::MAX,
        ensures
            r.wf(),
            r.mode == mode,
            r.source == source,
            r.source_client_id == client_id,
            r.source_client_data == client_data,
            !r.mid_stream(),
            r.last_received_keyframe is None,
            r.auto_keyframe_interval == 7000u32,
            r.pli_request_timestamp == now,
            r.pli_request_timer is None,
            r.sender@ == Seq::<VideoSinkAttachment>::empty(),
            r.cmds() == Seq::<VideoCommandView>::empty(),
            r.fps.spec_time_base() == now / 1000,
            r.fps.spec_index() == 0,
            forall|j: int| 0 <= j < 32 ==> r.fps.slots()[j] == 0u8,
    {
        let r = ClientVideoBroadcaster {
            mode,
            source,
            source_client_id: client_id,
            source_client_data: client_data,
            sender: Vec::new(),
            last_received_packet: None,
            last_received_keyframe: None,
            auto_keyframe_interval: 7000,
            pli_request_timestamp: now,
            pli_request_timer: None,
            commands: Vec::new(),
            fps: FpsCounter::new(now / 1000),
        };
        proof {
            assert(r.cmds() =~= Seq::<VideoCommandView>::empty());
        }
        r
    }

    /// The publishing client's id.
    pub fn source_client_id(&self) -> (r: u32)
        ensures
            r == self.source_client_id,
    {
        self.source_client_id
    }

    /// The ids of all attached sinks, in attachment order.
    pub fn client_ids(&self) -> (r: Vec<u32>)
        ensures
            r@ == self.sink_ids(),
    {
        let mut ids: Vec<u32> = Vec::new();
        let mut i: usize = 0;
        while i < self.sender.len()
            invariant
                i <= self.sender@.len(),
                ids@ == self.sender@.subrange(0, i as int).map_values(
                    |s: VideoSinkAttachment| s.owner_id,
                ),
            decreases self.sender@.len() - i,
        {
            ids.push(self.sender[i].owner_id);
            proof {
                assert(self.sender@.subrange(0, i + 1).drop_last() =~= self.sender@.subrange(
                    0,
                    i as int,
                ));
                assert(ids@ =~= self.sender@.subrange(0, i + 1).map_values(
                    |s: VideoSinkAttachment| s.owner_id,
                ));
            }
            i = i + 1;
        }
        proof {
            assert(self.sender@.subrange(0, self.sender@.len() as int) =~= self.sender@);
        }
        ids
    }

    /// Whether a sink for this client is attached.
    pub fn contains_client(&self, client_id: u32) -> (r: bool)
        ensures
            r == self.spec_contains_client(client_id),
    {
        let mut i: usize = 0;
        while i < self.sender.len()
            invariant
                i <= self.sender@.len(),
                forall|j: int| 0 <= j < i ==> self.sender@[j].owner_id != client_id,
            decreases self.sender@.len() - i,
        {
            if self.sender[i].owner_id == client_id {
                proof {
                    assert(self.sink_ids()[i as int] == client_id);
                }
                return true;
            }
            i = i + 1;
        }
        proof {
            assert forall|k: int| 0 <= k < self.sink_ids().len() implies self.sink_ids()[k]
                != client_id by {
                assert(self.sender@[k].owner_id != client_id);
            }
        }
        false
    }

    /// Applies the flagged fields of a partial configuration update: the
    /// bitrate cap goes upstream (zero lifts it), the keyframe interval is
    /// stored.  No update is rejected today.
    pub fn configure(&mut self, options: &VideoBroadcastOptions) -> (r: Result<
        (),
        VideoBroadcastConfigureError,
    >)
        ensures
            r is Ok,
            video_configure_effect(*old(self), *final(self), *options),
    {
        match options.bitrate() {
            Some(bitrate) => {
                self.source.set_bitrate(
                    if bitrate == 0 {
                        None
                    } else {
                        Some(bitrate)
                    },
                );
            },
            None => {},
        }
        match options.keyframe_interval() {
            Some(keyframe_interval) => {
                self.auto_keyframe_interval = keyframe_interval;
            },
            None => {},
        }
        Ok(())
    }

    /// The currently effective configuration, with no fields flagged.
    pub fn config(&self) -> (r: VideoBroadcastOptions)
        ensures
            r.update_mask == 0,
            r.keyframe_interval == self.auto_keyframe_interval,
            r.bitrate == (match self.source.bitrate_limit {
                Some(b) => b,
                None => 0u32,
            }),
    {
        VideoBroadcastOptions {
            update_mask: 0,
            keyframe_interval: self.auto_keyframe_interval,
            bitrate: match self.source.bitrate() {
                Some(b) => b,
                None => 0,
            },
        }
    }

    /// Sends or defers one upstream PLI request, as the rate limiter
    /// decides.
    fn request_pli(&mut self, force: bool, now: u64)
        requires
            old(self).wf(),
            now + pli_min_request_interval() <= u64::MAX,
        ensures
            final(self).wf(),
            final(self).mode == old(self).mode,
            final(self).sender@ == old(self).sender@,
            final(self).last_received_packet == old(self).last_received_packet,
            final(self).last_received_keyframe == old(self).last_received_keyframe,
            final(self).auto_keyframe_interval == old(self).auto_keyframe_interval,
            final(self).source_client_id == old(self).source_client_id,
            final(self).source_client_data == old(self).source_client_data,
            final(self).source.stream_id == old(self).source.stream_id,
            final(self).source.events@ == old(self).source.events@,
            final(self).source.bitrate_limit == old(self).source.bitrate_limit,
            final(self).fps == old(self).fps,
            final(self).pass_state() == video_pli_request(old(self).pass_state(), force, now),
    {
        let elapsed: u64 = if now >= self.pli_request_timestamp {
            now - self.pli_request_timestamp
        } else {
            0
        };
        if force || elapsed > 500 {
            self.pli_request_timestamp = now;
            self.pli_request_timer = None;
            self.source.request_pli();
            proof {
                assert(final(self).pass_state() =~= video_pli_request(
                    old(self).pass_state(),
                    force,
                    now,
                ));
            }
        } else if self.pli_request_timer.is_none() {
            self.pli_request_timer = Some(self.pli_request_timestamp + 500);
            proof {
                assert(final(self).pass_state() =~= video_pli_request(
                    old(self).pass_state(),
                    force,
                    now,
                ));
            }
        } else {
            proof {
                assert(final(self).pass_state() =~= video_pli_request(
                    old(self).pass_state(),
                    force,
                    now,
                ));
            }
        }
    }

    /// Signals a stop to every sink, once, when the broadcast is mid-stream,
    /// and forgets the last keyframe either way.
    fn stop_stream(&mut self, reason: VideoStopReason)
        ensures
            final(self).mode == old(self).mode,
            final(self).sender@ == old(self).sender@,
            final(self).auto_keyframe_interval == old(self).auto_keyframe_interval,
            final(self).pli_request_timestamp == old(self).pli_request_timestamp,
            final(self).pli_request_timer == old(self).pli_request_timer,
            final(self).source_client_id == old(self).source_client_id,
            final(self).source_client_data == old(self).source_client_data,
            final(self).source == old(self).source,
            final(self).fps == old(self).fps,
            !final(self).mid_stream(),
            final(self).last_received_keyframe is None,
            (if old(self).mid_stream() {
                final(self).cmds() == old(self).cmds().push(
                    VideoCommandView::Stop { recipients: old(self).sink_ids(), reason },
                )
            } else {
                final(self).cmds() == old(self).cmds()
            }),
    {
        if self.last_received_packet.is_some() {
            self.last_received_packet = None;
            let recipients = self.client_ids();
            self.commands.push(VideoSinkCommand::Stop { recipients, reason });
            proof {
                assert(self.cmds() =~= old(self).cmds().push(
                    VideoCommandView::Stop { recipients: old(self).sink_ids(), reason },
                ));
            }
        }
        self.last_received_keyframe = None;
    }

    /// Attaches a client as a sink.  A client that already has a sink, or
    /// that cannot receive video, leaves the broadcast untouched; otherwise
    /// the attachment is appended, a broadcast that is mid-stream sends the
    /// newcomer a start signal before any further packet, the source is
    /// told about the join, and a forced keyframe request goes upstream.
    pub fn register_client(&mut self, client: &ClientInfo, now: u64)
        requires
            old(self).wf(),
            now + pli_min_request_interval() <= u64::MAX,
        ensures
            final(self).wf(),
            final(self).mode == old(self).mode,
            final(self).last_received_packet == old(self).last_received_packet,
            final(self).last_received_keyframe == old(self).last_received_keyframe,
            final(self).auto_keyframe_interval == old(self).auto_keyframe_interval,
            final(self).source_client_id == old(self).source_client_id,
            final(self).source_client_data == old(self).source_client_data,
            final(self).source.stream_id == old(self).source.stream_id,
            final(self).source.events@ == old(self).source.events@,
            final(self).source.bitrate_limit == old(self).source.bitrate_limit,
            final(self).fps == old(self).fps,
            (if old(self).spec_contains_client(client.client_id) || !client.can_send_video() {
                *final(self) == *old(self)
            } else {
                final(self).sender@.len() == old(self).sender@.len() + 1
                    && final(self).sender@.subrange(0, old(self).sender@.len() as int) == old(self).sender@
                    && final(self).sender@.last().owner_id == client.client_id
                    && final(self).sender@.last().owner_data == client.client_data
                    && !final(self).sender@.last().closed
                    && final(self).sender@.last().pending_events@ == Seq::<ClientVideoSenderEvent>::empty()
                    && final(self).cmds() == (if old(self).mid_stream() {
                    old(self).cmds().push(
                        VideoCommandView::Start { recipients: seq![client.client_id] },
                    )
                } else {
                    old(self).cmds()
                }) && final(self).source.commands@ == old(self).source.commands@.push(
                    VideoSourceCommand::NotifyClientJoin {
                        client_id: client.client_id,
                        client_data: client.client_data,
                    },
                ).push(VideoSourceCommand::RequestPli) && final(self).pli_request_timestamp == now
                    && final(self).pli_request_timer is None
            }),
    {
        if self.contains_client(client.client_id) {
            return ;
        }
        if !client.rtc_connection {
            return ;
        }
        if self.last_received_packet.is_some() {
            let mut recipients: Vec<u32> = Vec::new();
            recipients.push(client.client_id);
            self.commands.push(VideoSinkCommand::Start { recipients });
            proof {
                assert(self.cmds() =~= old(self).cmds().push(
                    VideoCommandView::Start { recipients: seq![client.client_id] },
                ));
            }
        }
        self.source.notify_client_join(client.client_id, client.client_data);
        self.sender.push(
            VideoSinkAttachment {
                owner_id: client.client_id,
                owner_data: client.client_data,
                closed: false,
                pending_events: Vec::new(),
            },
        );
        proof {
            assert forall|i: int, j: int|
                0 <= i < j < self.sender@.len() implies self.sender@[i].owner_id
                != self.sender@[j].owner_id by {
                if j == self.sender@.len() - 1 {
                    assert(old(self).sink_ids()[i] == old(self).sender@[i].owner_id);
                }
            }
            assert(self.sender@.subrange(0, old(self).sender@.len() as int) =~= old(self).sender@);
        }
        self.request_pli(true, now);
    }

    /// Detaches the sink of this client, if one is attached, tells the
    /// source about the leave, and reports whether anything was removed.
    /// An absent client id changes nothing.
    pub fn remove_client(&mut self, client_id: u32) -> (removed: bool)
        requires
            old(self).wf(),
        ensures
            final(self).wf(),
            removed == old(self).spec_contains_client(client_id),
            final(self).mode == old(self).mode,
            final(self).last_received_packet == old(self).last_received_packet,
            final(self).last_received_keyframe == old(self).last_received_keyframe,
            final(self).auto_keyframe_interval == old(self).auto_keyframe_interval,
            final(self).pli_request_timestamp == old(self).pli_request_timestamp,
            final(self).pli_request_timer == old(self).pli_request_timer,
            final(self).source_client_id == old(self).source_client_id,
            final(self).source_client_data == old(self).source_client_data,
            final(self).source.stream_id == old(self).source.stream_id,
            final(self).source.events@ == old(self).source.events@,
            final(self).source.bitrate_limit == old(self).source.bitrate_limit,
            final(self).fps == old(self).fps,
            final(self).cmds() == old(self).cmds(),
            (if old(self).spec_contains_client(client_id) {
                exists|k: int|
                    0 <= k < old(self).sender@.len() && old(self).sender@[k].owner_id == client_id
                        && final(self).sender@ == old(self).sender@.remove(k) && final(self).source.commands@ == old(self).source.commands@.push(
                        VideoSourceCommand::NotifyClientLeave {
                            client_id,
                            client_data: old(self).sender@[k].owner_data,
                        },
                    )
            } else {
                final(self).sender@ == old(self).sender@ && final(self).source.commands@ == old(self).source.commands@
            }),
            !final(self).spec_contains_client(client_id),
    {
        let mut i: usize = 0;
        while i < self.sender.len()
            invariant
                i <= self.sender@.len(),
                self.sender@ == old(self).sender@,
                self.mode == old(self).mode,
                self.last_received_packet == old(self).last_received_packet,
                self.last_received_keyframe == old(self).last_received_keyframe,
                self.auto_keyframe_interval == old(self).auto_keyframe_interval,
                self.pli_request_timestamp == old(self).pli_request_timestamp,
                self.pli_request_timer == old(self).pli_request_timer,
                self.source_client_id == old(self).source_client_id,
                self.source_client_data == old(self).source_client_data,
                self.source == old(self).source,
                self.fps == old(self).fps,
                self.commands@ == old(self).commands@,
                old(self).wf(),
                forall|j: int| 0 <= j < i ==> self.sender@[j].owner_id != client_id,
            decreases self.sender@.len() - i,
        {
            if self.sender[i].owner_id == client_id {
                let owner_data = self.sender[i].owner_data;
                self.sender.remove(i);
                self.source.notify_client_leave(client_id, owner_data);
                proof {
                    assert(old(self).sink_ids()[i as int] == client_id);
                    assert forall|k: int|
                        0 <= k < self.sink_ids().len() implies self.sink_ids()[k]
                        != client_id by {
                        if k < i {
                            assert(self.sender@[k] == old(self).sender@[k]);
                        } else {
                            assert(self.sender@[k] == old(self).sender@[k + 1]);
                        }
                    }
                    assert forall|a: int, b: int|
                        0 <= a < b < self.sender@.len() implies self.sender@[a].owner_id
                        != self.sender@[b].owner_id by {
                        let a0 = if a < i {
                            a
                        } else {
                            a + 1
                        };
                        let b0 = if b < i {
                            b
                        } else {
                            b + 1
                        };
                        assert(self.sender@[a] == old(self).sender@[a0]);
                        assert(self.sender@[b] == old(self).sender@[b0]);
                    }
                }
                return true;
            }
            i = i + 1;
        }
        proof {
            assert forall|k: int| 0 <= k < self.sink_ids().len() implies self.sink_ids()[k]
                != client_id by {
                assert(self.sender@[k].owner_id != client_id);
            }
        }
        false
    }

    /// Marks the sink of this client (if attached) as closed, so the next
    /// sink sweep reaps it; the host calls this when the sink's transport
    /// goes away.
    pub fn mark_sink_closed(&mut self, client_id: u32)
        ensures
            final(self).mode == old(self).mode,
            final(self).last_received_packet == old(self).last_received_packet,
            final(self).last_received_keyframe == old(self).last_received_keyframe,
            final(self).auto_keyframe_interval == old(self).auto_keyframe_interval,
            final(self).pli_request_timestamp == old(self).pli_request_timestamp,
            final(self).pli_request_timer == old(self).pli_request_timer,
            final(self).source_client_id == old(self).source_client_id,
            final(self).source_client_data == old(self).source_client_data,
            final(self).source == old(self).source,
            final(self).fps == old(self).fps,
            final(self).cmds() == old(self).cmds(),
            final(self).sender@.len() == old(self).sender@.len(),
            forall|j: int|
                0 <= j < old(self).sender@.len() ==> final(self).sender@[j] == (if old(self).sender@[j].owner_id == client_id {
                    VideoSinkAttachment { closed: true, ..old(self).sender@[j] }
                } else {
                    old(self).sender@[j]
                }),
    {
        let mut i: usize = 0;
        while i < self.sender.len()
            invariant
                i <= self.sender@.len(),
                self.sender@.len() == old(self).sender@.len(),
                self.mode == old(self).mode,
                self.last_received_packet == old(self).last_received_packet,
                self.last_received_keyframe == old(self).last_received_keyframe,
                self.auto_keyframe_interval == old(self).auto_keyframe_interval,
                self.pli_request_timestamp == old(self).pli_request_timestamp,
                self.pli_request_timer == old(self).pli_request_timer,
                self.source_client_id == old(self).source_client_id,
                self.source_client_data == old(self).source_client_data,
                self.source == old(self).source,
                self.fps == old(self).fps,
                self.commands@ == old(self).commands@,
                forall|j: int|
                    0 <= j < i ==> self.sender@[j] == (if old(self).sender@[j].owner_id
                        == client_id {
                        VideoSinkAttachment { closed: true, ..old(self).sender@[j] }
                    } else {
                        old(self).sender@[j]
                    }),
                forall|j: int|
                    i <= j < self.sender@.len() ==> self.sender@[j] == old(self).sender@[j],
            decreases self.sender@.len() - i,
        {
            if self.sender[i].owner_id == client_id {
                self.sender[i].closed = true;
            }
            i = i + 1;
        }
    }

    /// Queues an event a sink's transport reported (a receiver-side
    /// keyframe request); the next sink sweep drains it.
    pub fn push_sink_event(&mut self, client_id: u32, event: ClientVideoSenderEvent)
        ensures
            final(self).mode == old(self).mode,
            final(self).last_received_packet == old(self).last_received_packet,
            final(self).last_received_keyframe == old(self).last_received_keyframe,
            final(self).auto_keyframe_interval == old(self).auto_keyframe_interval,
            final(self).pli_request_timestamp == old(self).pli_request_timestamp,
            final(self).pli_request_timer == old(self).pli_request_timer,
            final(self).source_client_id == old(self).source_client_id,
            final(self).source_client_data == old(self).source_client_data,
            final(self).source == old(self).source,
            final(self).fps == old(self).fps,
            final(self).cmds() == old(self).cmds(),
            final(self).sender@.len() == old(self).sender@.len(),
            forall|j: int|
                0 <= j < old(self).sender@.len() ==> (if old(self).sender@[j].owner_id == client_id {
                    final(self).sender@[j].pending_events@ == old(self).sender@[j].pending_events@.push(event) && final(self).sender@[j].owner_id
                        == old(self).sender@[j].owner_id && final(self).sender@[j].owner_data
                        == old(self).sender@[j].owner_data && final(self).sender@[j].closed == old(self).sender@[j].closed
                } else {
                    final(self).sender@[j] == old(self).sender@[j]
                }),
    {
        let mut i: usize = 0;
        while i < self.sender.len()
            invariant
                i <= self.sender@.len(),
                self.sender@.len() == old(self).sender@.len(),
                self.mode == old(self).mode,
                self.last_received_packet == old(self).last_received_packet,
                self.last_received_keyframe == old(self).last_received_keyframe,
                self.auto_keyframe_interval == old(self).auto_keyframe_interval,
                self.pli_request_timestamp == old(self).pli_request_timestamp,
                self.pli_request_timer == old(self).pli_request_timer,
                self.source_client_id == old(self).source_client_id,
                self.source_client_data == old(self).source_client_data,
                self.source == old(self).source,
                self.fps == old(self).fps,
                self.commands@ == old(self).commands@,
                forall|j: int|
                    0 <= j < i ==> (if old(self).sender@[j].owner_id == client_id {
                        self.sender@[j].pending_events@ == old(self).sender@[j].pending_events@.push(event) && self.sender@[j].owner_id
                            == old(self).sender@[j].owner_id && self.sender@[j].owner_data == old(self).sender@[j].owner_data && self.sender@[j].closed == old(self).sender@[j].closed
                    } else {
                        self.sender@[j] == old(self).sender@[j]
                    }),
                forall|j: int|
                    i <= j < self.sender@.len() ==> self.sender@[j] == old(self).sender@[j],
            decreases self.sender@.len() - i,
        {
            if self.sender[i].owner_id == client_id {
                self.sender[i].pending_events.push(event);
            }
            i = i + 1;
        }
    }

    /// Fires at most one stop batch per silence: when the broadcast is
    /// mid-stream and no packet arrived within the timeout window before
    /// `now`, every sink is sent a stop with reason `Timeout` and the
    /// mid-stream mark is cleared, so a repeated call changes nothing until
    /// a new packet arrives.
    pub fn test_timeout(&mut self, now: u64)
        ensures
            final(self).mode == old(self).mode,
            final(self).sender@ == old(self).sender@,
            final(self).auto_keyframe_interval == old(self).auto_keyframe_interval,
            final(self).pli_request_timestamp == old(self).pli_request_timestamp,
            final(self).pli_request_timer == old(self).pli_request_timer,
            final(self).source_client_id == old(self).source_client_id,
            final(self).source_client_data == old(self).source_client_data,
            final(self).source == old(self).source,
            final(self).fps == old(self).fps,
            (if video_timeout_fires(*old(self), now) {
                final(self).cmds() == old(self).cmds().push(
                    VideoCommandView::Stop {
                        recipients: old(self).sink_ids(),
                        reason: VideoStopReason::Timeout,
                    },
                ) && !final(self).mid_stream() && final(self).last_received_keyframe is None
            } else {
                *final(self) == *old(self)
            }),
    {
        match self.last_received_packet {
            Some(last) => {
                let elapsed: u64 = if now >= last {
                    now - last
                } else {
                    0
                };
                if elapsed > 5000 {
                    self.stop_stream(VideoStopReason::Timeout);
                }
            },
            None => {},
        }
    }
}

/// Whether `test_timeout` at `now` fires a stop batch: only mid-stream, and
/// only when the last packet lies more than the timeout window in the past.
pub open spec fn video_timeout_fires(b: ClientVideoBroadcaster, now: u64) -> bool {
    match b.last_received_packet {
        Some(last) => now >= last && now - last > video_timeout_window(),
        None => false,
    }
}

/// Law: a video timeout fires at most once per silence.  After a fired
/// timeout the broadcast is no longer mid-stream, and a broadcast that is
/// not mid-stream never fires again, whatever later instant it is asked at.
pub proof fn lemma_video_timeout_fires_once(b: ClientVideoBroadcaster, now: u64)
    requires
        !b.mid_stream(),
    ensures
        !video_timeout_fires(b, now),
{
}

/// Law: PLI requests are rate-limited.  Right after a request went
/// upstream at `now1`, any further unforced request inside the rate-limit
/// window sends nothing; it only arms the one-shot timer for the end of
/// the window, so the deferred request comes no sooner than the window
/// after the first.
pub proof fn lemma_pli_rate_limited(st: VideoPassState, now1: u64, now2: u64)
    requires
        now1 + pli_min_request_interval() <= u64::MAX,
        now2 <= now1 + pli_min_request_interval(),
    ensures
        ({
            let st1 = video_pli_request(st, true, now1);
            let st2 = video_pli_request(st1, false, now2);
            st2.source_cmds == st1.source_cmds && st2.pli_timer == Some(
                (now1 + pli_min_request_interval()) as u64,
            ) && st1.pli_timestamp + pli_min_request_interval() >= now1
                + pli_min_request_interval()
        }),
{
}


/// Whether any attached sink has an undrained receiver keyframe request.
pub open spec fn video_sinks_request_pli(sinks: Seq<VideoSinkAttachment>) -> bool {
    exists|i: int|
        0 <= i < sinks.len() && sinks[i].pending_events@.contains(
            ClientVideoSenderEvent::RequestPLI,
        )
}

/// The upstream leave notifications a sink sweep sends, one per closed
/// sink, in attachment order.
pub open spec fn video_reap_leaves(sinks: Seq<VideoSinkAttachment>) -> Seq<VideoSourceCommand> {
    sinks.filter(|s: VideoSinkAttachment| s.closed).map_values(
        |s: VideoSinkAttachment| VideoSourceCommand::NotifyClientLeave {
            client_id: s.owner_id,
            client_data: s.owner_data,
        },
    )
}

/// The state change a sink sweep causes: the leave notifications go
/// upstream, and one rate-limited PLI request follows when any sink asked
/// for a keyframe.
pub open spec fn video_reap(st: VideoPassState, sinks: Seq<VideoSinkAttachment>, now: u64) -> VideoPassState {
    let st1 = VideoPassState { source_cmds: st.source_cmds + video_reap_leaves(sinks), ..st };
    if video_sinks_request_pli(sinks) {
        video_pli_request(st1, false, now)
    } else {
        st1
    }
}

impl ClientVideoBroadcaster {
    /// Sweeps the sinks: drains every sink's reported events, reaps the
    /// sinks whose transport the host marked closed (each closure goes
    /// upstream as a leave notification, in order), and coalesces all
    /// receiver keyframe requests of this sweep into at most one
    /// rate-limited upstream PLI request.
    pub fn poll_senders(&mut self, now: u64)
        requires
            old(self).wf(),
            now + pli_min_request_interval() <= u64::MAX,
        ensures
            final(self).wf(),
            final(self).mode == old(self).mode,
            final(self).last_received_packet == old(self).last_received_packet,
            final(self).last_received_keyframe == old(self).last_received_keyframe,
            final(self).auto_keyframe_interval == old(self).auto_keyframe_interval,
            final(self).source_client_id == old(self).source_client_id,
            final(self).source_client_data == old(self).source_client_data,
            final(self).source.stream_id == old(self).source.stream_id,
            final(self).source.events@ == old(self).source.events@,
            final(self).source.bitrate_limit == old(self).source.bitrate_limit,
            final(self).pass_state() == video_reap(old(self).pass_state(), old(self).sender@, now),
            ({
                let kept = old(self).sender@.filter(|s: VideoSinkAttachment| !s.closed);
                final(self).sender@.len() == kept.len() && forall|j: int|
                    0 <= j < kept.len() ==> final(self).sender@[j].owner_id == kept[j].owner_id
                        && final(self).sender@[j].owner_data == kept[j].owner_data && !final(self).sender@[j].closed && final(self).sender@[j].pending_events@ == Seq::<
                        ClientVideoSenderEvent,
                    >::empty()
            }),
    {
        let ghost closed_pred = |s: VideoSinkAttachment| s.closed;
        let ghost open_pred = |s: VideoSinkAttachment| !s.closed;
        let mut kept: Vec<VideoSinkAttachment> = Vec::new();
        let mut any_pli: bool = false;
        let mut i: usize = 0;
        proof {
            assert(old(self).sender@.subrange(0, 0).filter(open_pred) =~= Seq::<
                VideoSinkAttachment,
            >::empty());
            assert(video_reap_leaves(old(self).sender@.subrange(0, 0)) =~= Seq::<
                VideoSourceCommand,
            >::empty());
            assert(old(self).source.commands@ + Seq::<VideoSourceCommand>::empty() =~= old(self).source.commands@);
        }
        while i < self.sender.len()
            invariant
                i <= self.sender@.len(),
                self.sender@ == old(self).sender@,
                self.mode == old(self).mode,
                self.last_received_packet == old(self).last_received_packet,
                self.last_received_keyframe == old(self).last_received_keyframe,
                self.auto_keyframe_interval == old(self).auto_keyframe_interval,
                self.pli_request_timestamp == old(self).pli_request_timestamp,
                self.pli_request_timer == old(self).pli_request_timer,
                self.source_client_id == old(self).source_client_id,
                self.source_client_data == old(self).source_client_data,
                self.source.stream_id == old(self).source.stream_id,
                self.source.events@ == old(self).source.events@,
                self.source.bitrate_limit == old(self).source.bitrate_limit,
                self.fps == old(self).fps,
                self.commands@ == old(self).commands@,
                old(self).wf(),
                open_pred == (|s: VideoSinkAttachment| !s.closed),
                closed_pred == (|s: VideoSinkAttachment| s.closed),
                self.source.commands@ == old(self).source.commands@ + video_reap_leaves(
                    old(self).sender@.subrange(0, i as int),
                ),
                any_pli == video_sinks_request_pli(old(self).sender@.subrange(0, i as int)),
                ({
                    let kept_spec = old(self).sender@.subrange(0, i as int).filter(open_pred);
                    kept@.len() == kept_spec.len() && forall|j: int|
                        0 <= j < kept_spec.len() ==> kept@[j].owner_id == kept_spec[j].owner_id
                            && kept@[j].owner_data == kept_spec[j].owner_data && !kept@[j].closed
                            && kept@[j].pending_events@ == Seq::<ClientVideoSenderEvent>::empty()
                }),
            decreases self.sender@.len() - i,
        {
            let ghost prefix = old(self).sender@.subrange(0, i as int);
            let ghost prefix1 = old(self).sender@.subrange(0, i + 1);
            let owner_id = self.sender[i].owner_id;
            let owner_data = self.sender[i].owner_data;
            let closed = self.sender[i].closed;

            let mut k: usize = 0;
            let mut sink_pli: bool = false;
            while k < self.sender[i].pending_events.len()
                invariant
                    i < self.sender@.len(),
                    k <= self.sender@[i as int].pending_events@.len(),
                    sink_pli == self.sender@[i as int].pending_events@.subrange(
                        0,
                        k as int,
                    ).contains(ClientVideoSenderEvent::RequestPLI),
                decreases self.sender@[i as int].pending_events@.len() - k,
            {
                let ghost evs = self.sender@[i as int].pending_events@;
                match self.sender[i].pending_events[k] {
                    ClientVideoSenderEvent::RequestPLI => {
                        sink_pli = true;
                    },
                }
                proof {
                    assert(evs.subrange(0, k as int).push(evs[k as int]) =~= evs.subrange(
                        0,
                        k + 1,
                    ));
                    assert(evs.subrange(0, k + 1)[k as int] == ClientVideoSenderEvent::RequestPLI);
                    assert(evs.subrange(0, k + 1).contains(ClientVideoSenderEvent::RequestPLI));
                }
                k = k + 1;
            }
            proof {
                let evs = self.sender@[i as int].pending_events@;
                assert(evs.subrange(0, evs.len() as int) =~= evs);
            }
            if sink_pli {
                any_pli = true;
            }

            if closed {
                self.source.notify_client_leave(owner_id, owner_data);
            } else {
                kept.push(
                    VideoSinkAttachment {
                        owner_id,
                        owner_data,
                        closed: false,
                        pending_events: Vec::new(),
                    },
                );
            }
            proof {
                assert(prefix1.drop_last() =~= prefix);
                reveal(Seq::filter);
                if closed {
                    assert(prefix1.filter(closed_pred) =~= prefix.filter(closed_pred).push(
                        old(self).sender@[i as int],
                    ));
                    assert(video_reap_leaves(prefix1) =~= video_reap_leaves(prefix).push(
                        VideoSourceCommand::NotifyClientLeave {
                            client_id: owner_id,
                            client_data: owner_data,
                        },
                    ));
                    assert(self.source.commands@ =~= old(self).source.commands@
                        + video_reap_leaves(prefix1));
                    assert(prefix1.filter(open_pred) =~= prefix.filter(open_pred));
                } else {
                    assert(prefix1.filter(closed_pred) =~= prefix.filter(closed_pred));
                    assert(video_reap_leaves(prefix1) =~= video_reap_leaves(prefix));
                    assert(prefix1.filter(open_pred) =~= prefix.filter(open_pred).push(
                        old(self).sender@[i as int],
                    ));
                }
                if sink_pli {
                    assert(old(self).sender@[i as int].pending_events@.contains(
                        ClientVideoSenderEvent::RequestPLI,
                    ));
                    assert(video_sinks_request_pli(prefix1));
                } else if any_pli {
                    let w = choose|w: int|
                        0 <= w < prefix.len() && prefix[w].pending_events@.contains(
                            ClientVideoSenderEvent::RequestPLI,
                        );
                    assert(prefix1[w] == prefix[w]);
                    assert(video_sinks_request_pli(prefix1));
                } else {
                    assert forall|w: int|
                        0 <= w < prefix1.len() implies !prefix1[w].pending_events@.contains(
                        ClientVideoSenderEvent::RequestPLI,
                    ) by {
                        if w < prefix.len() {
                            assert(prefix[w] == prefix1[w]);
                        } else {
                            assert(prefix1[w] == old(self).sender@[i as int]);
                        }
                    }
                }
            }
            i = i + 1;
        }
        proof {
            assert(old(self).sender@.subrange(0, old(self).sender@.len() as int) =~= old(self).sender@);
        }
        self.sender = kept;
        proof {
            if old(self).wf() {
                crate::lemma_filter_keeps_distinct_keys(
                    old(self).sender@,
                    open_pred,
                    |s: VideoSinkAttachment| s.owner_id,
                );
                let kept_spec = old(self).sender@.filter(open_pred);
                assert forall|a: int, b: int|
                    0 <= a < b < self.sender@.len() implies self.sender@[a].owner_id
                    != self.sender@[b].owner_id by {
                    assert(self.sender@[a].owner_id == kept_spec[a].owner_id);
                    assert(self.sender@[b].owner_id == kept_spec[b].owner_id);
                }
            }
        }
        if any_pli {
            self.request_pli(false, now);
            proof {
                assert(final(self).pass_state() =~= video_reap(
                    old(self).pass_state(),
                    old(self).sender@,
                    now,
                ));
            }
        } else {
            proof {
                assert(final(self).pass_state() =~= video_reap(
                    old(self).pass_state(),
                    old(self).sender@,
                    now,
                ));
            }
        }
    }
}


impl ClientVideoBroadcaster {
    /// Drains every event the source has queued, in arrival order, stopping
    /// at a terminal `Ended`: a sequence-end signal stops the stream (the
    /// broadcast stays alive); a packet after a stop first sends every sink
    /// a start signal; keyframes are tracked and, when none arrived within
    /// the configured interval, a rate-limited PLI request goes upstream;
    /// every packet is delivered to every sink.  Once the queue is drained
    /// an armed PLI timer whose deadline has passed fires the deferred
    /// request.  Returns whether the source ended for good.
    pub fn poll_source(&mut self, now: u64) -> (ended: bool)
        requires
            old(self).wf(),
            now + pli_min_request_interval() <= u64::MAX,
        ensures
            final(self).wf(),
            ended == video_pass_ended(old(self).source.events@),
            video_poll_effect(*old(self), *final(self), now),
    {
        let ghost ids = old(self).sink_ids();
        let ghost interval0 = old(self).auto_keyframe_interval;
        let ghost fps_slot = old(self).fps.slot_of(now / 1000);
        loop
            invariant
                self.wf(),
                now + pli_min_request_interval() <= u64::MAX,
                self.mode == old(self).mode,
                self.sender@ == old(self).sender@,
                self.auto_keyframe_interval == old(self).auto_keyframe_interval,
                self.source_client_id == old(self).source_client_id,
                self.source_client_data == old(self).source_client_data,
                self.source.stream_id == old(self).source.stream_id,
                self.source.bitrate_limit == old(self).source.bitrate_limit,
                self.fps.spec_time_base() == old(self).fps.spec_time_base(),
                ids == old(self).sink_ids(),
                ids == self.sink_ids(),
                interval0 == old(self).auto_keyframe_interval,
                fps_slot == old(self).fps.slot_of(now / 1000),
                video_pass_state(
                    self.pass_state(),
                    ids,
                    interval0,
                    self.source.events@,
                    now,
                    fps_slot,
                ) == video_pass_state(
                    old(self).pass_state(),
                    ids,
                    interval0,
                    old(self).source.events@,
                    now,
                    fps_slot,
                ),
                video_pass_ended(self.source.events@) == video_pass_ended(
                    old(self).source.events@,
                ),
                video_pass_rest(self.source.events@) == video_pass_rest(old(self).source.events@),
            decreases self.source.events@.len(),
        {
            let ghost pre = *self;
            match self.source.poll_next() {
                None => {
                    proof {
                        assert(video_pass_state(
                            self.pass_state(),
                            ids,
                            interval0,
                            self.source.events@,
                            now,
                            fps_slot,
                        ) == self.pass_state());
                        assert(self.source.events@ =~= Seq::<VideoSourceEvent>::empty());
                        assert(video_pass_rest(self.source.events@) =~= self.source.events@);
                    }
                    match self.pli_request_timer {
                        Some(deadline) => {
                            if now >= deadline {
                                self.pli_request_timer = None;
                                self.request_pli(true, now);
                            }
                        },
                        None => {},
                    }
                    proof {
                        let folded = video_pass_state(
                            old(self).pass_state(),
                            ids,
                            interval0,
                            old(self).source.events@,
                            now,
                            fps_slot,
                        );
                        assert(self.pass_state() =~= video_timer_check(folded, now));
                    }
                    return false;
                },
                Some(event) => {
                    let ghost e0 = pre.source.events@[0];
                    match event {
                        VideoSourceEvent::Ended => {
                            proof {
                                assert(video_pass_state(
                                    pre.pass_state(),
                                    ids,
                                    interval0,
                                    pre.source.events@,
                                    now,
                                    fps_slot,
                                ) == pre.pass_state());
                                assert(self.pass_state() == pre.pass_state());
                            }
                            return true;
                        },
                        VideoSourceEvent::SequenceEndSignal => {
                            self.stop_stream(VideoStopReason::User);
                            proof {
                                assert(self.pass_state() =~= video_step(
                                    pre.pass_state(),
                                    ids,
                                    interval0,
                                    e0,
                                    now,
                                    fps_slot,
                                ));
                            }
                        },
                        VideoSourceEvent::Packet {
                            payload,
                            timestamp,
                            marked,
                            key_frame,
                            sequence,
                            codec,
                        } => {
                            let ghost st = pre.pass_state();
                            if self.last_received_packet.is_none() {
                                let recipients = self.client_ids();
                                self.commands.push(VideoSinkCommand::Start { recipients });
                            }
                            let ghost st1 = (if st.mid is None {
                                VideoPassState {
                                    sink_cmds: st.sink_cmds.push(
                                        VideoCommandView::Start { recipients: ids },
                                    ),
                                    ..st
                                }
                            } else {
                                st
                            });
                            proof {
                                assert(self.pass_state() =~= st1);
                            }
                            if marked {
                                self.fps.log_frame(now / 1000);
                            }
                            let ghost st1f = (if marked {
                                VideoPassState {
                                    fps_index: fps_slot,
                                    fps_slots: slots_after_frame(
                                        st1.fps_index,
                                        st1.fps_slots,
                                        fps_slot,
                                    ),
                                    ..st1
                                }
                            } else {
                                st1
                            });
                            proof {
                                assert(self.pass_state() =~= st1f);
                            }
                            if key_frame {
                                self.last_received_keyframe = Some(now);
                            } else {
                                let do_pli: bool = match self.last_received_keyframe {
                                    Some(lkf) => self.auto_keyframe_interval != 0 && now >= lkf
                                        && now - lkf >= self.auto_keyframe_interval as u64,
                                    None => false,
                                };
                                if do_pli {
                                    self.request_pli(false, now);
                                    self.last_received_keyframe = Some(now);
                                }
                            }
                            let ghost st2 = (if key_frame {
                                VideoPassState { last_keyframe: Some(now), ..st1f }
                            } else if st1f.last_keyframe matches Some(lkf) && interval0 != 0 && now
                                >= lkf && now - lkf >= interval0 {
                                VideoPassState {
                                    last_keyframe: Some(now),
                                    ..video_pli_request(st1f, false, now)
                                }
                            } else {
                                st1f
                            });
                            proof {
                                assert(self.pass_state() =~= st2);
                            }
                            self.last_received_packet = Some(now);
                            let recipients = self.client_ids();
                            self.commands.push(
                                VideoSinkCommand::Deliver {
                                    recipients,
                                    payload,
                                    codec,
                                    sequence,
                                    marked,
                                    timestamp,
                                },
                            );
                            proof {
                                assert(self.pass_state() =~= video_step(
                                    st,
                                    ids,
                                    interval0,
                                    e0,
                                    now,
                                    fps_slot,
                                ));
                            }
                        },
                    }
                    proof {
                        assert(self.source.events@ == pre.source.events@.drop_first());
                        if !(e0 is Ended) {
                            assert(video_pass_state(
                                pre.pass_state(),
                                ids,
                                interval0,
                                pre.source.events@,
                                now,
                                fps_slot,
                            ) == video_pass_state(
                                video_step(pre.pass_state(), ids, interval0, e0, now, fps_slot),
                                ids,
                                interval0,
                                pre.source.events@.drop_first(),
                                now,
                                fps_slot,
                            ));
                        }
                    }
                },
            }
        }
    }
}

} // verus!
