//! Sources: the inbound side of a broadcast.
//!
//! A source queues the events that the owning client's transport produced
//! (pushed in by the host) and hands them to the broadcast in arrival order.
//! A video source additionally records the control commands the broadcast
//! sends upstream (keyframe requests, bitrate limits, membership
//! notifications) for the host to perform.
use vstd::prelude::*;
use crate::AudioCodec;
use crate::VideoCodec;

verus! {

/// An opaque per-client host handle carried alongside client ids in
/// notifications.
pub type ClientData = u64;

/// One event produced by an audio source.
pub enum AudioSourceEvent {
    /// The current transmission ended gracefully; the source stays alive.
    EndSignal,
    /// One audio packet in the broadcast's virtual numbering.
    Packet {
        timestamp: u32,
        sequence: u16,
        codec: AudioCodec,
        marked: bool,
        payload: Vec<u8>,
        level: Option<u8>,
    },
}

/// One poll step of an audio source.
pub enum AudioSourcePoll {
    /// No event is ready; the source is still alive.
    Pending,
    /// The source ended for good.
    Ended,
    /// The next queued event.
    Event(AudioSourceEvent),
}

/// One event produced by a video source.
pub enum VideoSourceEvent {
    /// The video source terminated for good.
    Ended,
    /// The current video sequence finished gracefully.
    SequenceEndSignal,
    /// One video packet in the broadcast's virtual numbering.
    Packet {
        payload: Vec<u8>,
        timestamp: u32,
        marked: bool,
        key_frame: bool,
        sequence: u16,
        codec: VideoCodec,
    },
}

/// A control command a video broadcast sends upstream to its source's
/// transport; the host drains and performs these.
#[derive(Clone, Copy, Debug, PartialEq, Eq, Structural)]
pub enum VideoSourceCommand {
    /// Ask the publisher for a fresh keyframe.
    RequestPli,
    /// Cap (or uncap, with `None`) the publisher's send bitrate.
    SetBitrate(Option<u32>),
    /// Tell the source that this client joined its fan-out.
    NotifyClientJoin { client_id: u32, client_data: ClientData },
    /// Tell the source that this client left its fan-out.
    NotifyClientLeave { client_id: u32, client_data: ClientData },
}

/// A queued audio source: the host pushes transport events, the broadcast
/// drains them in order.
pub struct AudioSource {
    /// The transport stream id this source reads from.
    pub stream_id: u32,
    /// Events not yet handed to the broadcast, oldest first.
    pub events: Vec<AudioSourceEvent>,
    /// Set once the underlying stream ended for good.
    pub ended: bool,
}

impl AudioSource {
    /// A fresh source with an empty queue.
    pub fn new(stream_id: u32) -> (r: AudioSource)
        ensures
            r.stream_id == stream_id,
            r.events@ == Seq::<AudioSourceEvent>::empty(),
            !r.ended,
    {
        AudioSource { stream_id, events: Vec::new(), ended: false }
    }

    /// The transport stream id this source reads from.
    pub fn stream_id(&self) -> (r: u32)
        ensures
            r == self.stream_id,
    {
        self.stream_id
    }

    /// Queues one transport event for the broadcast.
    pub fn push_event(&mut self, event: AudioSourceEvent)
        ensures
            final(self).events@ == old(self).events@.push(event),
            final(self).stream_id == old(self).stream_id,
            final(self).ended == old(self).ended,
    {
        self.events.push(event);
    }

    /// Marks the underlying stream as ended for good; queued events are
    /// still delivered first.
    pub fn mark_ended(&mut self)
        ensures
            final(self).events@ == old(self).events@,
            final(self).stream_id == old(self).stream_id,
            final(self).ended,
    {
        self.ended = true;
    }

    /// The next queued event; `Ended` once the queue is drained and the
    /// stream ended, `Pending` while it is drained but alive.
    pub fn poll_next(&mut self) -> (r: AudioSourcePoll)
        ensures
            final(self).stream_id == old(self).stream_id,
            final(self).ended == old(self).ended,
            (if old(self).events@.len() > 0 {
                r == AudioSourcePoll::Event(old(self).events@[0]) && final(self).events@ == old(
                    self,
                ).events@.drop_first()
            } else {
                final(self).events@ == old(self).events@ && r == (if old(self).ended {
                    AudioSourcePoll::Ended
                } else {
                    AudioSourcePoll::Pending
                })
            }),
    {
        if self.events.len() > 0 {
            let event = self.events.remove(0);
            AudioSourcePoll::Event(event)
        } else if self.ended {
            AudioSourcePoll::Ended
        } else {
            AudioSourcePoll::Pending
        }
    }
}

/// A queued video source: the host pushes transport events, the broadcast
/// drains them in order and records upstream control commands.
pub struct VideoSource {
    /// The transport stream id this source reads from.
    pub stream_id: u32,
    /// Events not yet handed to the broadcast, oldest first.
    pub events: Vec<VideoSourceEvent>,
    /// Upstream control commands the host has not performed yet.
    pub commands: Vec<VideoSourceCommand>,
    /// The last bitrate cap the broadcast configured; `None` is unlimited.
    pub bitrate_limit: Option<u32>,
}

impl VideoSource {
    /// A fresh source with empty queues and no bitrate cap.
    pub fn new(stream_id: u32) -> (r: VideoSource)
        ensures
            r.stream_id == stream_id,
            r.events@ == Seq::<VideoSourceEvent>::empty(),
            r.commands@ == Seq::<VideoSourceCommand>::empty(),
            r.bitrate_limit is None,
    {
        VideoSource { stream_id, events: Vec::new(), commands: Vec::new(), bitrate_limit: None }
    }

    /// The transport stream id this source reads from.
    pub fn stream_id(&self) -> (r: u32)
        ensures
            r == self.stream_id,
    {
        self.stream_id
    }

    /// Queues one transport event for the broadcast.
    pub fn push_event(&mut self, event: VideoSourceEvent)
        ensures
            final(self).events@ == old(self).events@.push(event),
            final(self).stream_id == old(self).stream_id,
            final(self).commands@ == old(self).commands@,
            final(self).bitrate_limit == old(self).bitrate_limit,
    {
        self.events.push(event);
    }

    /// The next queued event, or `None` while no event is ready.
    pub fn poll_next(&mut self) -> (r: Option<VideoSourceEvent>)
        ensures
            final(self).stream_id == old(self).stream_id,
            final(self).commands@ == old(self).commands@,
            final(self).bitrate_limit == old(self).bitrate_limit,
            (if old(self).events@.len() > 0 {
                r == Some(old(self).events@[0]) && final(self).events@ == old(
                    self,
                ).events@.drop_first()
            } else {
                r is None && final(self).events@ == old(self).events@
            }),
    {
        if self.events.len() > 0 {
            Some(self.events.remove(0))
        } else {
            None
        }
    }

    /// Records an upstream keyframe request.
    pub fn request_pli(&mut self)
        ensures
            final(self).commands@ == old(self).commands@.push(VideoSourceCommand::RequestPli),
            final(self).stream_id == old(self).stream_id,
            final(self).events@ == old(self).events@,
            final(self).bitrate_limit == old(self).bitrate_limit,
    {
        self.commands.push(VideoSourceCommand::RequestPli);
    }

    /// Records a new bitrate cap; `None` lifts the cap.
    pub fn set_bitrate(&mut self, bitrate_limit: Option<u32>)
        ensures
            final(self).commands@ == old(self).commands@.push(
                VideoSourceCommand::SetBitrate(bitrate_limit),
            ),
            final(self).bitrate_limit == bitrate_limit,
            final(self).stream_id == old(self).stream_id,
            final(self).events@ == old(self).events@,
    {
        self.bitrate_limit = bitrate_limit;
        self.commands.push(VideoSourceCommand::SetBitrate(bitrate_limit));
    }

    /// The last configured bitrate cap.
    pub fn bitrate(&self) -> (r: Option<u32>)
        ensures
            r == self.bitrate_limit,
    {
        self.bitrate_limit
    }

    /// Records that a client joined this source's fan-out.
    pub fn notify_client_join(&mut self, client_id: u32, client_data: ClientData)
        ensures
            final(self).commands@ == old(self).commands@.push(
                VideoSourceCommand::NotifyClientJoin { client_id, client_data },
            ),
            final(self).stream_id == old(self).stream_id,
            final(self).events@ == old(self).events@,
            final(self).bitrate_limit == old(self).bitrate_limit,
    {
        self.commands.push(VideoSourceCommand::NotifyClientJoin { client_id, client_data });
    }

    /// Records that a client left this source's fan-out.
    pub fn notify_client_leave(&mut self, client_id: u32, client_data: ClientData)
        ensures
            final(self).commands@ == old(self).commands@.push(
                VideoSourceCommand::NotifyClientLeave { client_id, client_data },
            ),
            final(self).stream_id == old(self).stream_id,
            final(self).events@ == old(self).events@,
            final(self).bitrate_limit == old(self).bitrate_limit,
    {
        self.commands.push(VideoSourceCommand::NotifyClientLeave { client_id, client_data });
    }

    /// Hands the host the upstream commands recorded so far and clears them.
    pub fn take_commands(&mut self) -> (r: Vec<VideoSourceCommand>)
        ensures
            r@ == old(self).commands@,
            final(self).commands@ == Seq::<VideoSourceCommand>::empty(),
            final(self).stream_id == old(self).stream_id,
            final(self).events@ == old(self).events@,
            final(self).bitrate_limit == old(self).bitrate_limit,
    {
        let mut taken: Vec<VideoSourceCommand> = Vec::new();
        core::mem::swap(&mut taken, &mut self.commands);
        taken
    }
}

} // verus!
