//! Clients as the relay sees them: an id, an opaque host handle, which
//! transport connections the client currently has, and the client's active
//! whisper session.  The transports themselves live with the host; the
//! relay only needs to know whether a sender or source can be created on
//! them.
use vstd::prelude::*;
use crate::broadcast_audio::AudioBroadcastMode;
use crate::broadcast_audio::ClientAudioBroadcaster;
use crate::source::AudioSource;
use crate::source::ClientData;
use crate::source::VideoSource;
use crate::whisper::WhisperSession;

verus! {

/// What a broadcast needs to know about a client to attach it as a sink.
#[derive(Clone, Copy, Debug, PartialEq, Eq, Structural)]
pub struct ClientInfo {
    /// The client's id.
    pub client_id: u32,
    /// The opaque host handle passed back in notifications.
    pub client_data: ClientData,
    /// Whether the client has an RTC transport connection.
    pub rtc_connection: bool,
    /// Whether the client has a native transport connection.
    pub native_connection: bool,
}

impl ClientInfo {
    /// An audio sender can be created on either connection kind.
    pub open spec fn can_send_audio(self) -> bool {
        self.rtc_connection || self.native_connection
    }

    /// A video sender needs the RTC connection.
    pub open spec fn can_send_video(self) -> bool {
        self.rtc_connection
    }

    /// An audio source can be created on either connection kind.
    pub open spec fn can_source_audio(self) -> bool {
        self.rtc_connection || self.native_connection
    }

    /// A video source needs the RTC connection.
    pub open spec fn can_source_video(self) -> bool {
        self.rtc_connection
    }
}


/// One client of the relay.
pub struct Client {
    /// The client's id.
    pub client_id: u32,
    /// The opaque host handle passed back in notifications.
    pub client_data: ClientData,
    /// Whether the client has an RTC transport connection.
    pub rtc_connection: bool,
    /// Whether the client has a native transport connection.
    pub native_connection: bool,
    /// The client's active whisper session, at most one.
    pub whisper_session: Option<WhisperSession>,
    /// The active session's id; zero while none is active.
    pub whisper_session_id: u32,
}

impl Client {
    /// The client's whisper session, when present, is well formed, belongs
    /// to this client, and carries the recorded session id.
    pub open spec fn wf(self) -> bool {
        match self.whisper_session {
            Some(s) => s.wf() && s.broadcast.source_client_id == self.client_id
                && s.broadcast.source_client_data == self.client_data && s.session_id
                == self.whisper_session_id && s.session_id != 0,
            None => true,
        }
    }

    /// What broadcasts need to know to attach this client.
    pub open spec fn spec_info(self) -> ClientInfo {
        ClientInfo {
            client_id: self.client_id,
            client_data: self.client_data,
            rtc_connection: self.rtc_connection,
            native_connection: self.native_connection,
        }
    }

    /// A fresh client with no transport connections and no whisper session.
    pub fn new(client_id: u32, client_data: ClientData) -> (r: Client)
        ensures
            r.wf(),
            r.client_id == client_id,
            r.client_data == client_data,
            !r.rtc_connection,
            !r.native_connection,
            r.whisper_session is None,
            r.whisper_session_id == 0,
    {
        Client {
            client_id,
            client_data,
            rtc_connection: false,
            native_connection: false,
            whisper_session: None,
            whisper_session_id: 0,
        }
    }

    /// The client's id.
    pub fn client_id(&self) -> (r: u32)
        ensures
            r == self.client_id,
    {
        self.client_id
    }

    /// The opaque host handle.
    pub fn client_data(&self) -> (r: ClientData)
        ensures
            r == self.client_data,
    {
        self.client_data
    }

    /// What broadcasts need to know to attach this client.
    pub fn info(&self) -> (r: ClientInfo)
        ensures
            r == self.spec_info(),
    {
        ClientInfo {
            client_id: self.client_id,
            client_data: self.client_data,
            rtc_connection: self.rtc_connection,
            native_connection: self.native_connection,
        }
    }

    /// Marks the RTC transport connection as established; reports `false`
    /// when one already was.
    pub fn initialize_rtc_connection(&mut self) -> (r: bool)
        ensures
            r == !old(self).rtc_connection,
            final(self).rtc_connection,
            final(self).client_id == old(self).client_id,
            final(self).client_data == old(self).client_data,
            final(self).native_connection == old(self).native_connection,
            final(self).whisper_session == old(self).whisper_session,
            final(self).whisper_session_id == old(self).whisper_session_id,
    {
        if self.rtc_connection {
            false
        } else {
            self.rtc_connection = true;
            true
        }
    }

    /// Marks the native transport connection as established.
    pub fn initialize_native_connection(&mut self)
        ensures
            final(self).native_connection,
            final(self).client_id == old(self).client_id,
            final(self).client_data == old(self).client_data,
            final(self).rtc_connection == old(self).rtc_connection,
            final(self).whisper_session == old(self).whisper_session,
            final(self).whisper_session_id == old(self).whisper_session_id,
    {
        self.native_connection = true;
    }

    /// A fresh audio source on the given stream, when any connection can
    /// supply one.
    pub fn create_audio_source(&self, stream_id: u32) -> (r: Option<AudioSource>)
        ensures
            (if self.spec_info().can_source_audio() {
                r matches Some(s) && s.stream_id == stream_id && s.events@ == Seq::<
                    crate::source::AudioSourceEvent,
                >::empty() && !s.ended
            } else {
                r is None
            }),
    {
        if self.native_connection || self.rtc_connection {
            Some(AudioSource::new(stream_id))
        } else {
            None
        }
    }

    /// A fresh video source on the given stream; only the RTC connection
    /// can supply one.
    pub fn create_video_source(&self, stream_id: u32) -> (r: Option<VideoSource>)
        ensures
            (if self.spec_info().can_source_video() {
                r matches Some(s) && s.stream_id == stream_id && s.events@ == Seq::<
                    crate::source::VideoSourceEvent,
                >::empty() && s.commands@ == Seq::<crate::source::VideoSourceCommand>::empty()
                    && s.bitrate_limit is None
            } else {
                r is None
            }),
    {
        if self.rtc_connection {
            Some(VideoSource::new(stream_id))
        } else {
            None
        }
    }

    /// Drops the active whisper session, if any.
    pub fn reset_whisper_session(&mut self)
        requires
            old(self).wf(),
        ensures
            final(self).wf(),
            final(self).whisper_session is None,
            final(self).client_id == old(self).client_id,
            final(self).client_data == old(self).client_data,
            final(self).rtc_connection == old(self).rtc_connection,
            final(self).native_connection == old(self).native_connection,
            final(self).whisper_session_id == old(self).whisper_session_id,
    {
        self.whisper_session = None;
    }

    /// Reuses the active whisper session when its source stream matches;
    /// otherwise creates a fresh whisper-mode broadcast under the given
    /// session id.  Reports `false`, leaving everything untouched, when a
    /// new session is needed but no connection can supply an audio source.
    pub fn get_create_whisper_session(&mut self, stream_id: u32, new_session_id: u32, now: u64) -> (r:
        bool)
        requires
            old(self).wf(),
            new_session_id != 0,
        ensures
            final(self).wf(),
            final(self).client_id == old(self).client_id,
            final(self).client_data == old(self).client_data,
            final(self).rtc_connection == old(self).rtc_connection,
            final(self).native_connection == old(self).native_connection,
            (if old(self).whisper_session matches Some(s) && s.stream_id == stream_id {
                r && *final(self) == *old(self)
            } else if old(self).spec_info().can_source_audio() {
                r && final(self).whisper_session_id == new_session_id && (
                final(self).whisper_session matches Some(ns) && ns.session_id == new_session_id
                    && ns.stream_id == stream_id && ns.targets@ == Seq::<u32>::empty()
                    && ns.broadcast.mode == AudioBroadcastMode::Whisper && ns.broadcast.sender@
                    == Seq::<crate::broadcast_audio::AudioSinkAttachment>::empty()
                    && ns.broadcast.cmds() == Seq::<
                    crate::broadcast_audio::AudioCommandView,
                >::empty() && !ns.broadcast.mid_stream() && ns.broadcast.last_activity == now
                    && ns.broadcast.source.stream_id == stream_id && ns.broadcast.source.events@
                    == Seq::<crate::source::AudioSourceEvent>::empty() && !ns.broadcast.source.ended)
            } else {
                !r && *final(self) == *old(self)
            }),
    {
        match &self.whisper_session {
            Some(session) => {
                if session.stream_id == stream_id {
                    return true;
                }
            },
            None => {},
        }
        match self.create_audio_source(stream_id) {
            Some(source) => {
                let broadcast = ClientAudioBroadcaster::new(
                    AudioBroadcastMode::Whisper,
                    source,
                    self.client_id,
                    self.client_data,
                    now,
                );
                let session = WhisperSession::new(new_session_id, stream_id, broadcast);
                self.whisper_session_id = new_session_id;
                self.whisper_session = Some(session);
                true
            },
            None => false,
        }
    }

    /// Clears the session state once the watchdog saw the session finish,
    /// guarded by the session id so a session that was already replaced is
    /// not clobbered.  Reports whether anything was cleared; the host sends
    /// its whisper-reset notification exactly then.
    pub fn handle_whisper_session_finished(&mut self, session_id: u32) -> (cleared: bool)
        requires
            old(self).wf(),
        ensures
            final(self).wf(),
            cleared == (old(self).whisper_session_id == session_id),
            final(self).client_id == old(self).client_id,
            final(self).client_data == old(self).client_data,
            final(self).rtc_connection == old(self).rtc_connection,
            final(self).native_connection == old(self).native_connection,
            (if old(self).whisper_session_id == session_id {
                final(self).whisper_session is None && final(self).whisper_session_id == 0
            } else {
                *final(self) == *old(self)
            }),
    {
        if self.whisper_session_id == session_id {
            self.whisper_session = None;
            self.whisper_session_id = 0;
            true
        } else {
            false
        }
    }
}

} // verus!
