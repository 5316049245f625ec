//! The audio broadcast engine: one publishing client's audio stream fanned
//! out to any number of sinks.
//!
//! The engine drains its source's queued events and records, in order, the
//! commands the host must perform against the sink transports: stream
//! starts, packet deliveries and stream stops.  The sink list never holds
//! two attachments for the same client, and a sink attached mid-stream is
//! sent a start signal before any packet.
use vstd::prelude::*;
use crate::AudioCodec;
use crate::client::ClientInfo;
use crate::source::AudioSource;
use crate::source::AudioSourceEvent;
use crate::source::AudioSourcePoll;
use crate::source::ClientData;

verus! {

/// Whether an audio broadcast serves the whole channel or a whisper
/// target list.
#[derive(Clone, Copy, Debug, PartialEq, Eq, Structural)]
pub enum AudioBroadcastMode {
    Channel,
    Whisper,
}

impl AudioBroadcastMode {
    /// The media kind sinks of this broadcast receive.
    pub fn media_type(self) -> (r: crate::MediaType)
        ensures
            r == (match self {
                AudioBroadcastMode::Channel => crate::MediaType::Audio,
                AudioBroadcastMode::Whisper => crate::MediaType::AudioWhisper,
            }),
    {
        match self {
            AudioBroadcastMode::Channel => crate::MediaType::Audio,
            AudioBroadcastMode::Whisper => crate::MediaType::AudioWhisper,
        }
    }
}

/// Why an audio stream stop is signalled to a sink.
#[derive(Clone, Copy, Debug, PartialEq, Eq, Structural)]
pub enum AudioStopReason {
    /// The publisher ended the transmission.
    User,
    /// No packet arrived within the timeout window.
    Timeout,
    /// The attachment itself is going away; no stop notification is owed.
    InternalEnding,
}

/// One sink attached to an audio broadcast.
#[derive(Clone, Copy, Debug, PartialEq, Eq, Structural)]
pub struct AudioSinkAttachment {
    /// The subscribed client's id.
    pub owner_id: u32,
    /// The subscribed client's opaque host handle.
    pub owner_data: ClientData,
    /// Set by the host once the sink's transport is gone; the attachment is
    /// reaped on the next sink sweep.
    pub closed: bool,
}

/// One command the host must perform against sink transports, recorded in
/// the order the engine decided it.
pub enum AudioSinkCommand {
    /// Signal a stream start to each of these clients.
    Start { recipients: Vec<u32> },
    /// Signal a stream stop to each of these clients.
    Stop { recipients: Vec<u32>, reason: AudioStopReason },
    /// Deliver one packet, in the broadcast's virtual numbering, to each of
    /// these clients.
    Deliver {
        recipients: Vec<u32>,
        payload: Vec<u8>,
        sequence: u16,
        marked: bool,
        timestamp: u32,
        codec: AudioCodec,
        level: Option<u8>,
    },
}

/// The mathematical value of an [`AudioSinkCommand`].
pub enum AudioCommandView {
    Start { recipients: Seq<u32> },
    Stop { recipients: Seq<u32>, reason: AudioStopReason },
    Deliver {
        recipients: Seq<u32>,
        payload: Seq<u8>,
        sequence: u16,
        marked: bool,
        timestamp: u32,
        codec: AudioCodec,
        level: Option<u8>,
    },
}

impl View for AudioSinkCommand {
    type V = AudioCommandView;

    open spec fn view(&self) -> AudioCommandView {
        match self {
            AudioSinkCommand::Start { recipients } => AudioCommandView::Start {
                recipients: recipients@,
            },
            AudioSinkCommand::Stop { recipients, reason } => AudioCommandView::Stop {
                recipients: recipients@,
                reason: *reason,
            },
            AudioSinkCommand::Deliver {
                recipients,
                payload,
                sequence,
                marked,
                timestamp,
                codec,
                level,
            } => AudioCommandView::Deliver {
                recipients: recipients@,
                payload: payload@,
                sequence: *sequence,
                marked: *marked,
                timestamp: *timestamp,
                codec: *codec,
                level: *level,
            },
        }
    }
}

/// The ids of a sink list, in attachment order.
pub open spec fn sink_ids_of(sinks: Seq<AudioSinkAttachment>) -> Seq<u32> {
    sinks.map_values(|s: AudioSinkAttachment| s.owner_id)
}

/// The commands one source event causes, given the sink list and whether
/// the broadcast is mid-stream.
pub open spec fn audio_event_commands(
    sinks: Seq<AudioSinkAttachment>,
    mid: bool,
    e: AudioSourceEvent,
) -> Seq<AudioCommandView> {
    match e {
        AudioSourceEvent::EndSignal => {
            if mid {
                seq![
                    AudioCommandView::Stop {
                        recipients: sink_ids_of(sinks),
                        reason: AudioStopReason::User,
                    },
                ]
            } else {
                Seq::empty()
            }
        },
        AudioSourceEvent::Packet { timestamp, sequence, codec, marked, payload, level } => {
            (if !mid {
                seq![AudioCommandView::Start { recipients: sink_ids_of(sinks) }]
            } else {
                Seq::empty()
            }) + seq![
                AudioCommandView::Deliver {
                    recipients: sink_ids_of(sinks),
                    payload: payload@,
                    sequence,
                    marked,
                    timestamp,
                    codec,
                    level,
                },
            ]
        },
    }
}

/// Whether the broadcast is mid-stream after one source event.
pub open spec fn audio_mid_after(mid: bool, e: AudioSourceEvent) -> bool {
    match e {
        AudioSourceEvent::EndSignal => false,
        AudioSourceEvent::Packet { .. } => true,
    }
}

/// The commands a whole pass over `events` causes, in order.
pub open spec fn audio_pass_commands(
    sinks: Seq<AudioSinkAttachment>,
    mid: bool,
    events: Seq<AudioSourceEvent>,
) -> Seq<AudioCommandView>
    decreases events.len(),
{
    if events.len() == 0 {
        Seq::empty()
    } else {
        audio_event_commands(sinks, mid, events[0]) + audio_pass_commands(
            sinks,
            audio_mid_after(mid, events[0]),
            events.drop_first(),
        )
    }
}

/// Whether the broadcast is mid-stream after a whole pass over `events`.
pub open spec fn audio_mid_final(mid: bool, events: Seq<AudioSourceEvent>) -> bool
    decreases events.len(),
{
    if events.len() == 0 {
        mid
    } else {
        audio_mid_final(audio_mid_after(mid, events[0]), events.drop_first())
    }
}

/// No packet for longer than this (milliseconds) counts as a timeout.
pub open spec fn audio_timeout_window() -> int {
    500
}

/// What one source pass at `now` changes on an audio broadcast: the queue
/// is drained, the recorded commands grow by exactly the pass's fold, and
/// the mid-stream state and activity clock follow the drained events.
pub open spec fn audio_poll_effect(
    pre: ClientAudioBroadcaster,
    post: ClientAudioBroadcaster,
    now: u64,
) -> bool {
    &&& post.mode == pre.mode
    &&& post.sender@ == pre.sender@
    &&& post.source_client_id == pre.source_client_id
    &&& post.source_client_data == pre.source_client_data
    &&& post.source.stream_id == pre.source.stream_id
    &&& post.source.ended == pre.source.ended
    &&& post.source.events@ == Seq::<AudioSourceEvent>::empty()
    &&& post.cmds() == pre.cmds() + audio_pass_commands(
        pre.sender@,
        pre.mid_stream(),
        pre.source.events@,
    )
    &&& post.mid_stream() == audio_mid_final(pre.mid_stream(), pre.source.events@)
    &&& (pre.source.events@.len() == 0 ==> post.last_send_packet == pre.last_send_packet
        && post.last_activity == pre.last_activity)
    &&& (pre.source.events@.len() > 0 ==> post.last_activity == now && (post.mid_stream()
        ==> post.last_send_packet == Some(now)))
    &&& (!post.mid_stream() ==> post.last_send_packet is None)
}

/// The audio fan-out engine.
pub struct ClientAudioBroadcaster {
    /// Channel audio or whisper audio.
    pub mode: AudioBroadcastMode,
    /// When the source last showed life (milliseconds).
    pub last_activity: u64,
    /// The one source this broadcast drains.
    pub source: AudioSource,
    /// When the last packet was forwarded; `None` while stopped.
    pub last_send_packet: Option<u64>,
    /// The attached sinks, in attachment order.
    pub sender: Vec<AudioSinkAttachment>,
    /// The publishing client's id.
    pub source_client_id: u32,
    /// The publishing client's opaque host handle.
    pub source_client_data: ClientData,
    /// Commands the host has not performed yet, oldest first.
    pub commands: Vec<AudioSinkCommand>,
}

impl ClientAudioBroadcaster {
    /// The ids of the attached sinks, in attachment order.
    pub open spec fn sink_ids(self) -> Seq<u32> {
        sink_ids_of(self.sender@)
    }

    /// Whether a sink for this client is attached.
    pub open spec fn spec_contains_client(self, client_id: u32) -> bool {
        self.sink_ids().contains(client_id)
    }

    /// Whether the broadcast has forwarded a packet since the last stop.
    pub open spec fn mid_stream(self) -> bool {
        self.last_send_packet is Some
    }

    /// The recorded commands, as mathematical values.
    pub open spec fn cmds(self) -> Seq<AudioCommandView> {
        self.commands@.map_values(|c: AudioSinkCommand| c@)
    }

    /// At most one sink per client id.
    pub open spec fn wf(self) -> bool {
        forall|i: int, j: int|
            0 <= i < j < self.sender@.len() ==> self.sender@[i].owner_id != self.sender@[j].owner_id
    }

    /// A fresh broadcast owning `source`, alive at `now`, with no sinks and
    /// nothing forwarded yet.
    pub fn new(
        mode: AudioBroadcastMode,
        source: AudioSource,
        client_id: u32,
        client_data: ClientData,
        now: u64,
    ) -> (r: ClientAudioBroadcaster)
        ensures
            r.wf(),
            r.mode == mode,
            r.source == source,
            r.source_client_id == client_id,
            r.source_client_data == client_data,
            r.last_activity == now,
            !r.mid_stream(),
            r.sender@ == Seq::<AudioSinkAttachment>::empty(),
            r.cmds() == Seq::<AudioCommandView>::empty(),
    {
        let r = ClientAudioBroadcaster {
            mode,
            source,
            source_client_id: client_id,
            source_client_data: client_data,
            sender: Vec::new(),
            last_send_packet: None,
            last_activity: now,
            commands: Vec::new(),
        };
        proof {
            assert(r.cmds() =~= Seq::<AudioCommandView>::empty());
        }
        r
    }

    /// When the source last showed life.
    pub fn last_activity(&self) -> (r: u64)
        ensures
            r == self.last_activity,
    {
        self.last_activity
    }

    /// The publishing client's id.
    pub fn source_client_id(&self) -> (r: u32)
        ensures
            r == self.source_client_id,
    {
        self.source_client_id
    }

    /// The ids of all attached sinks, in attachment order.
    pub fn client_ids(&self) -> (r: Vec<u32>)
        ensures
            r@ == self.sink_ids(),
    {
        let mut ids: Vec<u32> = Vec::new();
        let mut i: usize = 0;
        while i < self.sender.len()
            invariant
                i <= self.sender@.len(),
                ids@ == self.sender@.subrange(0, i as int).map_values(
                    |s: AudioSinkAttachment| s.owner_id,
                ),
            decreases self.sender@.len() - i,
        {
            ids.push(self.sender[i].owner_id);
            proof {
                assert(self.sender@.subrange(0, i + 1).drop_last() =~= self.sender@.subrange(
                    0,
                    i as int,
                ));
                assert(ids@ =~= self.sender@.subrange(0, i + 1).map_values(
                    |s: AudioSinkAttachment| s.owner_id,
                ));
            }
            i = i + 1;
        }
        proof {
            assert(self.sender@.subrange(0, self.sender@.len() as int) =~= self.sender@);
        }
        ids
    }

    /// Whether a sink for this client is attached.
    pub fn contains_client(&self, client_id: u32) -> (r: bool)
        ensures
            r == self.spec_contains_client(client_id),
    {
        let mut i: usize = 0;
        while i < self.sender.len()
            invariant
                i <= self.sender@.len(),
                forall|j: int| 0 <= j < i ==> self.sender@[j].owner_id != client_id,
            decreases self.sender@.len() - i,
        {
            if self.sender[i].owner_id == client_id {
                proof {
                    assert(self.sink_ids()[i as int] == client_id);
                }
                return true;
            }
            i = i + 1;
        }
        proof {
            assert forall|k: int| 0 <= k < self.sink_ids().len() implies self.sink_ids()[k]
                != client_id by {
                assert(self.sender@[k].owner_id != client_id);
            }
        }
        false
    }

    /// Signals a stop to every sink, once, when the broadcast is mid-stream;
    /// stopped broadcasts are left untouched.
    fn stop_stream(&mut self, reason: AudioStopReason)
        ensures
            final(self).mode == old(self).mode,
            final(self).last_activity == old(self).last_activity,
            final(self).source == old(self).source,
            final(self).sender@ == old(self).sender@,
            final(self).source_client_id == old(self).source_client_id,
            final(self).source_client_data == old(self).source_client_data,
            !final(self).mid_stream(),
            (if old(self).mid_stream() {
                final(self).cmds() == old(self).cmds().push(
                    AudioCommandView::Stop { recipients: old(self).sink_ids(), reason },
                )
            } else {
                *final(self) == *old(self)
            }),
    {
        if self.last_send_packet.is_some() {
            self.last_send_packet = None;
            let recipients = self.client_ids();
            self.commands.push(AudioSinkCommand::Stop { recipients, reason });
            proof {
                assert(final(self).cmds() =~= old(self).cmds().push(
                    AudioCommandView::Stop { recipients: old(self).sink_ids(), reason },
                ));
            }
        }
    }

    /// Marks the sink of this client (if attached) as closed, so the next
    /// sink sweep reaps it; the host calls this when the sink's transport
    /// goes away.
    pub fn mark_sink_closed(&mut self, client_id: u32)
        ensures
            final(self).mode == old(self).mode,
            final(self).last_activity == old(self).last_activity,
            final(self).source == old(self).source,
            final(self).last_send_packet == old(self).last_send_packet,
            final(self).source_client_id == old(self).source_client_id,
            final(self).source_client_data == old(self).source_client_data,
            final(self).cmds() == old(self).cmds(),
            final(self).sender@.len() == old(self).sender@.len(),
            forall|j: int|
                0 <= j < old(self).sender@.len() ==> final(self).sender@[j] == (if old(self).sender@[j].owner_id == client_id {
                    AudioSinkAttachment { closed: true, ..old(self).sender@[j] }
                } else {
                    old(self).sender@[j]
                }),
    {
        let mut i: usize = 0;
        while i < self.sender.len()
            invariant
                i <= self.sender@.len(),
                self.sender@.len() == old(self).sender@.len(),
                self.mode == old(self).mode,
                self.last_activity == old(self).last_activity,
                self.source == old(self).source,
                self.last_send_packet == old(self).last_send_packet,
                self.source_client_id == old(self).source_client_id,
                self.source_client_data == old(self).source_client_data,
                self.commands@ == old(self).commands@,
                forall|j: int|
                    0 <= j < i ==> self.sender@[j] == (if old(self).sender@[j].owner_id
                        == client_id {
                        AudioSinkAttachment { closed: true, ..old(self).sender@[j] }
                    } else {
                        old(self).sender@[j]
                    }),
                forall|j: int|
                    i <= j < self.sender@.len() ==> self.sender@[j] == old(self).sender@[j],
            decreases self.sender@.len() - i,
        {
            if self.sender[i].owner_id == client_id {
                self.sender[i].closed = true;
            }
            i = i + 1;
        }
    }

    /// Reaps every sink whose transport the host marked closed; the rest
    /// keep their order.  Audio sinks leave without any notification.
    pub fn poll_senders(&mut self)
        ensures
            final(self).mode == old(self).mode,
            final(self).last_activity == old(self).last_activity,
            final(self).source == old(self).source,
            final(self).last_send_packet == old(self).last_send_packet,
            final(self).source_client_id == old(self).source_client_id,
            final(self).source_client_data == old(self).source_client_data,
            final(self).cmds() == old(self).cmds(),
            final(self).sender@ == old(self).sender@.filter(|s: AudioSinkAttachment| !s.closed),
            old(self).wf() ==> final(self).wf(),
    {
        let ghost pred = |s: AudioSinkAttachment| !s.closed;
        let mut kept: Vec<AudioSinkAttachment> = Vec::new();
        let mut i: usize = 0;
        proof {
            assert(old(self).sender@.subrange(0, 0).filter(pred) =~= Seq::<
                AudioSinkAttachment,
            >::empty());
        }
        while i < self.sender.len()
            invariant
                i <= self.sender@.len(),
                self.sender@ == old(self).sender@,
                kept@ == old(self).sender@.subrange(0, i as int).filter(pred),
                pred == (|s: AudioSinkAttachment| !s.closed),
            decreases self.sender@.len() - i,
        {
            let ghost prefix = old(self).sender@.subrange(0, i as int);
            let ghost prefix1 = old(self).sender@.subrange(0, i + 1);
            if !self.sender[i].closed {
                kept.push(self.sender[i]);
            }
            proof {
                assert(prefix1.drop_last() =~= prefix);
                reveal(Seq::filter);
                assert(kept@ =~= prefix1.filter(pred));
            }
            i = i + 1;
        }
        proof {
            assert(old(self).sender@.subrange(0, old(self).sender@.len() as int)
                =~= old(self).sender@);
        }
        self.sender = kept;
        proof {
            if old(self).wf() {
                crate::lemma_filter_keeps_distinct_keys(
                    old(self).sender@,
                    pred,
                    |s: AudioSinkAttachment| s.owner_id,
                );
            }
        }
    }

    /// Attaches a client as a sink.  A client that already has a sink, or
    /// that cannot receive audio, leaves the broadcast untouched; otherwise
    /// the attachment is appended, and a broadcast that is mid-stream sends
    /// the newcomer a start signal before any further packet.
    pub fn register_client(&mut self, client: &ClientInfo)
        requires
            old(self).wf(),
        ensures
            final(self).wf(),
            final(self).mode == old(self).mode,
            final(self).last_activity == old(self).last_activity,
            final(self).source == old(self).source,
            final(self).last_send_packet == old(self).last_send_packet,
            final(self).source_client_id == old(self).source_client_id,
            final(self).source_client_data == old(self).source_client_data,
            (if old(self).spec_contains_client(client.client_id) || !client.can_send_audio() {
                *final(self) == *old(self)
            } else {
                final(self).sender@ == old(self).sender@.push(
                    AudioSinkAttachment {
                        owner_id: client.client_id,
                        owner_data: client.client_data,
                        closed: false,
                    },
                ) && final(self).cmds() == (if old(self).mid_stream() {
                    old(self).cmds().push(
                        AudioCommandView::Start { recipients: seq![client.client_id] },
                    )
                } else {
                    old(self).cmds()
                })
            }),
    {
        if self.contains_client(client.client_id) {
            return ;
        }
        if !(client.rtc_connection || client.native_connection) {
            return ;
        }
        if self.last_send_packet.is_some() {
            let mut recipients: Vec<u32> = Vec::new();
            recipients.push(client.client_id);
            self.commands.push(AudioSinkCommand::Start { recipients });
            proof {
                assert(self.cmds() =~= old(self).cmds().push(
                    AudioCommandView::Start { recipients: seq![client.client_id] },
                ));
            }
        }
        self.sender.push(
            AudioSinkAttachment {
                owner_id: client.client_id,
                owner_data: client.client_data,
                closed: false,
            },
        );
        proof {
            assert forall|i: int, j: int|
                0 <= i < j < self.sender@.len() implies self.sender@[i].owner_id
                != self.sender@[j].owner_id by {
                if j == self.sender@.len() - 1 {
                    assert(old(self).sink_ids()[i] == old(self).sender@[i].owner_id);
                }
            }
        }
    }

    /// Detaches the sink of this client, if one is attached, and reports
    /// whether anything was removed.  An absent client id changes nothing.
    pub fn remove_client(&mut self, client_id: u32) -> (removed: bool)
        requires
            old(self).wf(),
        ensures
            final(self).wf(),
            removed == old(self).spec_contains_client(client_id),
            final(self).mode == old(self).mode,
            final(self).last_activity == old(self).last_activity,
            final(self).source == old(self).source,
            final(self).last_send_packet == old(self).last_send_packet,
            final(self).source_client_id == old(self).source_client_id,
            final(self).source_client_data == old(self).source_client_data,
            final(self).cmds() == old(self).cmds(),
            (if old(self).spec_contains_client(client_id) {
                exists|k: int|
                    0 <= k < old(self).sender@.len() && old(self).sender@[k].owner_id == client_id
                        && final(self).sender@ == old(self).sender@.remove(k)
            } else {
                final(self).sender@ == old(self).sender@
            }),
            !final(self).spec_contains_client(client_id),
    {
        let mut i: usize = 0;
        while i < self.sender.len()
            invariant
                i <= self.sender@.len(),
                self.sender@ == old(self).sender@,
                self.mode == old(self).mode,
                self.last_activity == old(self).last_activity,
                self.source == old(self).source,
                self.last_send_packet == old(self).last_send_packet,
                self.source_client_id == old(self).source_client_id,
                self.source_client_data == old(self).source_client_data,
                self.commands@ == old(self).commands@,
                old(self).wf(),
                forall|j: int| 0 <= j < i ==> self.sender@[j].owner_id != client_id,
            decreases self.sender@.len() - i,
        {
            if self.sender[i].owner_id == client_id {
                self.sender.remove(i);
                proof {
                    assert(old(self).sink_ids()[i as int] == client_id);
                    assert(old(self).wf());
                    assert forall|k: int|
                        0 <= k < self.sink_ids().len() implies self.sink_ids()[k]
                        != client_id by {
                        if k < i {
                            assert(self.sender@[k] == old(self).sender@[k]);
                        } else {
                            assert(self.sender@[k] == old(self).sender@[k + 1]);
                        }
                    }
                    assert forall|a: int, b: int|
                        0 <= a < b < self.sender@.len() implies self.sender@[a].owner_id
                        != self.sender@[b].owner_id by {
                        let a0 = if a < i {
                            a
                        } else {
                            a + 1
                        };
                        let b0 = if b < i {
                            b
                        } else {
                            b + 1
                        };
                        assert(self.sender@[a] == old(self).sender@[a0]);
                        assert(self.sender@[b] == old(self).sender@[b0]);
                    }
                }
                return true;
            }
            i = i + 1;
        }
        proof {
            assert forall|k: int| 0 <= k < self.sink_ids().len() implies self.sink_ids()[k]
                != client_id by {
                assert(self.sender@[k].owner_id != client_id);
            }
        }
        false
    }

    /// Drains every event the source has queued, in arrival order: an end
    /// signal stops the stream (the broadcast stays alive); a packet after a
    /// stop first sends every sink a start signal, and every packet is
    /// delivered to every sink.  Returns whether the source ended for good.
    pub fn poll_source(&mut self, now: u64) -> (ended: bool)
        ensures
            ended == old(self).source.ended,
            audio_poll_effect(*old(self), *final(self), now),
    {
        loop
            invariant
                self.mode == old(self).mode,
                self.sender@ == old(self).sender@,
                self.source_client_id == old(self).source_client_id,
                self.source_client_data == old(self).source_client_data,
                self.source.stream_id == old(self).source.stream_id,
                self.source.ended == old(self).source.ended,
                self.source.events@.len() <= old(self).source.events@.len(),
                old(self).cmds() + audio_pass_commands(
                    old(self).sender@,
                    old(self).mid_stream(),
                    old(self).source.events@,
                ) == self.cmds() + audio_pass_commands(
                    self.sender@,
                    self.mid_stream(),
                    self.source.events@,
                ),
                audio_mid_final(old(self).mid_stream(), old(self).source.events@)
                    == audio_mid_final(self.mid_stream(), self.source.events@),
                self.source.events@.len() == old(self).source.events@.len()
                    ==> self.last_send_packet == old(self).last_send_packet
                    && self.last_activity == old(self).last_activity,
                self.source.events@.len() < old(self).source.events@.len() ==> self.last_activity
                    == now && (self.mid_stream() ==> self.last_send_packet == Some(now)),
                !self.mid_stream() ==> self.last_send_packet is None,
            decreases self.source.events@.len(),
        {
            let ghost pre = *self;
            match self.source.poll_next() {
                AudioSourcePoll::Pending => {
                    proof {
                        lemma_audio_pass_empty(self.sender@, self.mid_stream(), self.cmds());
                        assert(self.source.events@ =~= Seq::<AudioSourceEvent>::empty());
                    }
                    return false;
                },
                AudioSourcePoll::Ended => {
                    proof {
                        lemma_audio_pass_empty(self.sender@, self.mid_stream(), self.cmds());
                        assert(self.source.events@ =~= Seq::<AudioSourceEvent>::empty());
                    }
                    return true;
                },
                AudioSourcePoll::Event(event) => {
                    let ghost e0 = pre.source.events@[0];
                    match event {
                        AudioSourceEvent::EndSignal => {
                            self.stop_stream(AudioStopReason::User);
                            self.last_activity = now;
                        },
                        AudioSourceEvent::Packet {
                            timestamp,
                            sequence,
                            codec,
                            marked,
                            payload,
                            level,
                        } => {
                            if self.last_send_packet.is_none() {
                                let recipients = self.client_ids();
                                self.commands.push(AudioSinkCommand::Start { recipients });
                            }
                            self.last_activity = now;
                            self.last_send_packet = Some(now);
                            let recipients = self.client_ids();
                            self.commands.push(
                                AudioSinkCommand::Deliver {
                                    recipients,
                                    payload,
                                    sequence,
                                    marked,
                                    timestamp,
                                    codec,
                                    level,
                                },
                            );
                        },
                    }
                    proof {
                        let evc = audio_event_commands(pre.sender@, pre.mid_stream(), e0);
                        let passpost = audio_pass_commands(
                            self.sender@,
                            self.mid_stream(),
                            self.source.events@,
                        );
                        assert(self.source.events@ == pre.source.events@.drop_first());
                        assert(audio_pass_commands(pre.sender@, pre.mid_stream(), pre.source.events@)
                            == evc + audio_pass_commands(
                            pre.sender@,
                            audio_mid_after(pre.mid_stream(), e0),
                            pre.source.events@.drop_first(),
                        ));
                        assert(self.mid_stream() == audio_mid_after(pre.mid_stream(), e0));
                        assert(self.cmds() =~= pre.cmds() + evc);
                        assert(pre.cmds() + (evc + passpost) =~= (pre.cmds() + evc) + passpost);
                    }
                },
            }
        }
    }

    /// Fires at most one stop batch per silence: when the broadcast is
    /// mid-stream and no packet arrived within the timeout window before
    /// `now`, every sink is sent a stop with reason `Timeout` and the
    /// mid-stream mark is cleared, so a repeated call changes nothing until
    /// a new packet arrives.
    pub fn test_timeout(&mut self, now: u64)
        ensures
            final(self).mode == old(self).mode,
            final(self).last_activity == old(self).last_activity,
            final(self).source == old(self).source,
            final(self).sender@ == old(self).sender@,
            final(self).source_client_id == old(self).source_client_id,
            final(self).source_client_data == old(self).source_client_data,
            (if audio_timeout_fires(*old(self), now) {
                final(self).cmds() == old(self).cmds().push(
                    AudioCommandView::Stop {
                        recipients: old(self).sink_ids(),
                        reason: AudioStopReason::Timeout,
                    },
                ) && !final(self).mid_stream()
            } else {
                *final(self) == *old(self)
            }),
    {
        match self.last_send_packet {
            Some(last) => {
                let elapsed: u64 = if now >= last {
                    now - last
                } else {
                    0
                };
                if elapsed > 500 {
                    self.stop_stream(AudioStopReason::Timeout);
                }
            },
            None => {},
        }
    }
}

/// Whether `test_timeout` at `now` fires a stop batch: only mid-stream, and
/// only when the last packet lies more than the timeout window in the past.
pub open spec fn audio_timeout_fires(b: ClientAudioBroadcaster, now: u64) -> bool {
    match b.last_send_packet {
        Some(last) => now >= last && now - last > audio_timeout_window(),
        None => false,
    }
}

/// Law: a timeout fires at most once per silence.  After a fired timeout
/// the broadcast is no longer mid-stream, and a broadcast that is not
/// mid-stream never fires again, whatever later instant it is asked at.
pub proof fn lemma_timeout_fires_once(b: ClientAudioBroadcaster, now: u64)
    requires
        !b.mid_stream(),
    ensures
        !audio_timeout_fires(b, now),
{
}

/// A pass over an empty queue emits nothing.
proof fn lemma_audio_pass_empty(
    sinks: Seq<AudioSinkAttachment>,
    mid: bool,
    cmds: Seq<AudioCommandView>,
)
    ensures
        cmds + audio_pass_commands(sinks, mid, Seq::<AudioSourceEvent>::empty()) == cmds,
        audio_mid_final(mid, Seq::<AudioSourceEvent>::empty()) == mid,
{
    assert(cmds + audio_pass_commands(sinks, mid, Seq::<AudioSourceEvent>::empty()) =~= cmds);
}


/// Law: within one pass that begins in the stopped state, a start signal
/// to the sinks precedes any packet delivery; no sink sees data before it
/// was told a stream is active.
pub proof fn lemma_start_precedes_delivery(
    sinks: Seq<AudioSinkAttachment>,
    events: Seq<AudioSourceEvent>,
    k: int,
)
    requires
        0 <= k < audio_pass_commands(sinks, false, events).len(),
        audio_pass_commands(sinks, false, events)[k] is Deliver,
    ensures
        exists|j: int|
            0 <= j < k && #[trigger] audio_pass_commands(sinks, false, events)[j] is Start,
    decreases events.len(),
{
    let pass = audio_pass_commands(sinks, false, events);
    let e0 = events[0];
    let evc = audio_event_commands(sinks, false, e0);
    let tail = audio_pass_commands(sinks, audio_mid_after(false, e0), events.drop_first());
    match e0 {
        AudioSourceEvent::EndSignal => {
            assert(pass =~= tail);
            lemma_start_precedes_delivery(sinks, events.drop_first(), k);
            let j = choose|j: int|
                0 <= j < k && #[trigger] audio_pass_commands(
                    sinks,
                    false,
                    events.drop_first(),
                )[j] is Start;
            assert(pass[j] is Start);
        },
        AudioSourceEvent::Packet { .. } => {
            assert(evc.len() == 2);
            assert(pass[0] == evc[0]);
            assert(pass[0] is Start);
        },
    }
}

} // verus!
