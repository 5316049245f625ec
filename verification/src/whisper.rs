//! Whisper sessions: a short-lived, explicitly targeted audio broadcast.
//!
//! A whisper session wraps one whisper-mode audio broadcast together with
//! its target-client list.  Unlike channel audio, nothing forces a cleanup
//! when the speaker stops, so the session reports itself finished once it
//! saw no activity for ten consecutive seconds.
use vstd::prelude::*;
use crate::broadcast_audio::AudioSinkAttachment;
use crate::broadcast_audio::ClientAudioBroadcaster;
use crate::broadcast_audio::audio_timeout_fires;
use crate::broadcast_audio::sink_ids_of;
use crate::client::ClientInfo;

verus! {

/// Membership of an id after a sink-removal sweep does not change when an
/// element with a different id is removed.
proof fn lemma_remove_keeps_other_ids(s: Seq<AudioSinkAttachment>, k: int, x: u32)
    requires
        0 <= k < s.len(),
        s[k].owner_id != x,
    ensures
        sink_ids_of(s.remove(k)).contains(x) == sink_ids_of(s).contains(x),
{
    let r = s.remove(k);
    if sink_ids_of(r).contains(x) {
        let i = choose|i: int| 0 <= i < r.len() && sink_ids_of(r)[i] == x;
        let i0 = if i < k {
            i
        } else {
            i + 1
        };
        assert(r[i] == s[i0]);
        assert(sink_ids_of(s)[i0] == x);
    }
    if sink_ids_of(s).contains(x) {
        let i = choose|i: int| 0 <= i < s.len() && sink_ids_of(s)[i] == x;
        assert(s[i].owner_id == x);
        assert(i != k);
        let i1 = if i < k {
            i
        } else {
            i - 1
        };
        assert(r[i1] == s[i]);
        assert(sink_ids_of(r)[i1] == x);
    }
}

/// One whisper session: a whisper-mode broadcast plus its target list.
pub struct WhisperSession {
    /// This session's never-zero id, used to guard teardown races.
    pub session_id: u32,
    /// The source stream the session reads from.
    pub stream_id: u32,
    /// The wrapped whisper-mode audio broadcast.
    pub broadcast: ClientAudioBroadcaster,
    /// The client ids currently targeted.
    pub targets: Vec<u32>,
}

impl WhisperSession {
    /// The broadcast behind the session is well formed and in whisper
    /// mode, and every attached sink is a recorded target.
    pub open spec fn wf(self) -> bool {
        &&& self.broadcast.wf()
        &&& self.broadcast.mode == crate::broadcast_audio::AudioBroadcastMode::Whisper
        &&& forall|id: u32|
            #[trigger] self.broadcast.spec_contains_client(id) ==> self.targets@.contains(id)
    }

    /// A fresh session around an already-created whisper broadcast that
    /// has no sinks attached yet.
    pub fn new(
        session_id: u32,
        stream_id: u32,
        broadcast: ClientAudioBroadcaster,
    ) -> (r: WhisperSession)
        requires
            broadcast.sender@.len() == 0,
        ensures
            r.session_id == session_id,
            r.stream_id == stream_id,
            r.broadcast == broadcast,
            r.targets@ == Seq::<u32>::empty(),
    {
        WhisperSession { session_id, stream_id, broadcast, targets: Vec::new() }
    }

    /// This session's id.
    pub fn session_id(&self) -> (r: u32)
        ensures
            r == self.session_id,
    {
        self.session_id
    }

    /// The source stream the session reads from.
    pub fn stream_id(&self) -> (r: u32)
        ensures
            r == self.stream_id,
    {
        self.stream_id
    }

    /// Replaces the target list: every current target missing from the new
    /// list is unregistered as a sink at once; targets already present stay
    /// untouched.  Returns the ids of the new list that are not yet
    /// targeted — the caller still has to resolve and register those.
    pub fn update_target_clients(&mut self, client_ids: &[u32]) -> (to_add: Vec<u32>)
        requires
            old(self).wf(),
        ensures
            final(self).wf(),
            final(self).session_id == old(self).session_id,
            final(self).stream_id == old(self).stream_id,
            final(self).targets@ == old(self).targets@.filter(
                |t: u32| client_ids@.contains(t),
            ),
            to_add@ == client_ids@.filter(
                |c: u32|
                    !old(self).targets@.filter(|t: u32| client_ids@.contains(t)).contains(c),
            ),
            forall|t: u32|
                #[trigger] final(self).targets@.contains(t) == (old(self).targets@.contains(t)
                    && client_ids@.contains(t)),
            forall|x: u32|
                #[trigger] to_add@.contains(x) == (client_ids@.contains(x) && !final(self).targets@.contains(x)),
            final(self).broadcast.mode == old(self).broadcast.mode,
            final(self).broadcast.last_activity == old(self).broadcast.last_activity,
            final(self).broadcast.source == old(self).broadcast.source,
            final(self).broadcast.last_send_packet == old(self).broadcast.last_send_packet,
            final(self).broadcast.source_client_id == old(self).broadcast.source_client_id,
            final(self).broadcast.source_client_data == old(self).broadcast.source_client_data,
            final(self).broadcast.cmds() == old(self).broadcast.cmds(),
            forall|id: u32|
                final(self).broadcast.spec_contains_client(id) == (old(
                    self,
                ).broadcast.spec_contains_client(id) && !(old(self).targets@.contains(id)
                    && !client_ids@.contains(id))),
    {
        let ghost keep_pred = |t: u32| client_ids@.contains(t);
        let mut kept: Vec<u32> = Vec::new();
        let mut i: usize = 0;
        proof {
            assert(old(self).targets@.subrange(0, 0).filter(keep_pred) =~= Seq::<u32>::empty());
        }
        while i < self.targets.len()
            invariant
                i <= self.targets@.len(),
                self.targets@ == old(self).targets@,
                self.session_id == old(self).session_id,
                self.stream_id == old(self).stream_id,
                self.broadcast.wf(),
                self.broadcast.mode == old(self).broadcast.mode,
                self.broadcast.last_activity == old(self).broadcast.last_activity,
                self.broadcast.source == old(self).broadcast.source,
                self.broadcast.last_send_packet == old(self).broadcast.last_send_packet,
                self.broadcast.source_client_id == old(self).broadcast.source_client_id,
                self.broadcast.source_client_data == old(self).broadcast.source_client_data,
                self.broadcast.cmds() == old(self).broadcast.cmds(),
                keep_pred == (|t: u32| client_ids@.contains(t)),
                kept@ == old(self).targets@.subrange(0, i as int).filter(keep_pred),
                forall|id: u32|
                    #![trigger old(self).broadcast.spec_contains_client(id)]
                    self.broadcast.spec_contains_client(id) == (old(
                        self,
                    ).broadcast.spec_contains_client(id) && !(old(self).targets@.subrange(
                        0,
                        i as int,
                    ).contains(id) && !client_ids@.contains(id))),
            decreases self.targets@.len() - i,
        {
            let ghost prefix = old(self).targets@.subrange(0, i as int);
            let ghost prefix1 = old(self).targets@.subrange(0, i + 1);
            let t = self.targets[i];
            let mut in_new: bool = false;
            let mut k: usize = 0;
            while k < client_ids.len()
                invariant
                    k <= client_ids@.len(),
                    in_new == client_ids@.subrange(0, k as int).contains(t),
                decreases client_ids@.len() - k,
            {
                let ghost sub = client_ids@.subrange(0, k as int);
                if client_ids[k] == t {
                    in_new = true;
                }
                proof {
                    assert(sub.push(client_ids@[k as int]) =~= client_ids@.subrange(0, k + 1));
                    if client_ids@[k as int] == t {
                        assert(client_ids@.subrange(0, k + 1)[k as int] == t);
                    }
                }
                k = k + 1;
            }
            proof {
                assert(client_ids@.subrange(0, client_ids@.len() as int) =~= client_ids@);
            }

            let ghost pre_b = self.broadcast;
            if in_new {
                kept.push(t);
            } else {
                self.broadcast.remove_client(t);
                proof {
                    if pre_b.spec_contains_client(t) {
                        let kk = choose|kk: int|
                            0 <= kk < pre_b.sender@.len() && pre_b.sender@[kk].owner_id == t
                                && self.broadcast.sender@ == pre_b.sender@.remove(kk);
                        assert forall|id: u32| id != t implies self.broadcast.spec_contains_client(
                            id,
                        ) == pre_b.spec_contains_client(id) by {
                            lemma_remove_keeps_other_ids(pre_b.sender@, kk, id);
                        }
                    }
                }
            }
            proof {
                assert(prefix1.drop_last() =~= prefix);
                reveal(Seq::filter);
                assert(kept@ =~= prefix1.filter(keep_pred));
                assert forall|id: u32|
                    prefix1.contains(id) == (prefix.contains(id) || id == t) by {
                    if prefix1.contains(id) {
                        let w = choose|w: int| 0 <= w < prefix1.len() && prefix1[w] == id;
                        if w < prefix.len() {
                            assert(prefix[w] == id);
                        }
                    }
                    if prefix.contains(id) {
                        let w = choose|w: int| 0 <= w < prefix.len() && prefix[w] == id;
                        assert(prefix1[w] == id);
                    }
                    if id == t {
                        assert(prefix1[i as int] == id);
                    }
                }
                assert forall|id: u32|
                    self.broadcast.spec_contains_client(id) == (old(
                        self,
                    ).broadcast.spec_contains_client(id) && !(prefix1.contains(id)
                        && !client_ids@.contains(id))) by {
                    assert(pre_b.spec_contains_client(id) == (old(
                        self,
                    ).broadcast.spec_contains_client(id) && !(prefix.contains(id)
                        && !client_ids@.contains(id))));
                    if in_new {
                        assert(self.broadcast == pre_b);
                        if id == t {
                            assert(client_ids@.contains(id));
                            assert(prefix1.contains(id) == prefix.contains(id) || id == t);
                        }
                    } else {
                        if id == t {
                            assert(!self.broadcast.spec_contains_client(id));
                            assert(prefix1.contains(t));
                            assert(!client_ids@.contains(t));
                        } else {
                            assert(self.broadcast.spec_contains_client(id)
                                == pre_b.spec_contains_client(id));
                            assert(prefix1.contains(id) == prefix.contains(id));
                        }
                    }
                }
            }
            i = i + 1;
        }
        proof {
            assert(old(self).targets@.subrange(0, old(self).targets@.len() as int) =~= old(
                self,
            ).targets@);
        }
        self.targets = kept;

        let kept_targets = &self.targets;
        let mut to_add: Vec<u32> = Vec::new();
        let ghost add_pred = |c: u32|
            !old(self).targets@.filter(|t: u32| client_ids@.contains(t)).contains(c);
        let mut i: usize = 0;
        proof {
            assert(client_ids@.subrange(0, 0).filter(add_pred) =~= Seq::<u32>::empty());
        }
        while i < client_ids.len()
            invariant
                i <= client_ids@.len(),
                self.targets@ == old(self).targets@.filter(|t: u32| client_ids@.contains(t)),
                add_pred == (|c: u32|
                    !old(self).targets@.filter(|t: u32| client_ids@.contains(t)).contains(c)),
                to_add@ == client_ids@.subrange(0, i as int).filter(add_pred),
            decreases client_ids@.len() - i,
        {
            let ghost prefix = client_ids@.subrange(0, i as int);
            let ghost prefix1 = client_ids@.subrange(0, i + 1);
            let c = client_ids[i];
            let mut present: bool = false;
            let mut k: usize = 0;
            while k < self.targets.len()
                invariant
                    k <= self.targets@.len(),
                    present == self.targets@.subrange(0, k as int).contains(c),
                decreases self.targets@.len() - k,
            {
                let ghost sub = self.targets@.subrange(0, k as int);
                if self.targets[k] == c {
                    present = true;
                }
                proof {
                    assert(sub.push(self.targets@[k as int]) =~= self.targets@.subrange(0, k + 1));
                    if self.targets@[k as int] == c {
                        assert(self.targets@.subrange(0, k + 1)[k as int] == c);
                    }
                }
                k = k + 1;
            }
            proof {
                assert(self.targets@.subrange(0, self.targets@.len() as int) =~= self.targets@);
            }
            if !present {
                to_add.push(c);
            }
            proof {
                assert(prefix1.drop_last() =~= prefix);
                reveal(Seq::filter);
                assert(to_add@ =~= prefix1.filter(add_pred));
            }
            i = i + 1;
        }
        proof {
            assert(client_ids@.subrange(0, client_ids@.len() as int) =~= client_ids@);
            assert forall|id: u32|
                self.broadcast.spec_contains_client(id) == (old(
                    self,
                ).broadcast.spec_contains_client(id) && !(old(self).targets@.contains(id)
                    && !client_ids@.contains(id))) by {
                assert(old(self).targets@.subrange(0, old(self).targets@.len() as int) =~= old(
                    self,
                ).targets@);
            }
            assert forall|id: u32| #[trigger] self.broadcast.spec_contains_client(id) implies self.targets@.contains(id) by {
                assert(old(self).broadcast.spec_contains_client(id));
                assert(old(self).targets@.contains(id));
                assert(client_ids@.contains(id));
                let w = choose|w: int|
                    0 <= w < old(self).targets@.len() && old(self).targets@[w] == id;
                old(self).targets@.lemma_filter_contains(keep_pred, w);
            }
            crate::lemma_filter_mem(old(self).targets@, keep_pred);
            crate::lemma_filter_mem(client_ids@, add_pred);
        }
        to_add
    }

    /// Registers a new listener for the whisper session and remembers it as
    /// a target.
    pub fn register_client(&mut self, client: &ClientInfo)
        requires
            old(self).wf(),
        ensures
            final(self).wf(),
            final(self).session_id == old(self).session_id,
            final(self).stream_id == old(self).stream_id,
            final(self).targets@ == old(self).targets@.push(client.client_id),
            final(self).broadcast.mode == old(self).broadcast.mode,
            final(self).broadcast.last_activity == old(self).broadcast.last_activity,
            final(self).broadcast.source == old(self).broadcast.source,
            final(self).broadcast.last_send_packet == old(self).broadcast.last_send_packet,
            final(self).broadcast.source_client_id == old(self).broadcast.source_client_id,
            final(self).broadcast.source_client_data == old(self).broadcast.source_client_data,
            (if old(self).broadcast.spec_contains_client(client.client_id)
                || !client.can_send_audio() {
                final(self).broadcast == old(self).broadcast
            } else {
                final(self).broadcast.sender@ == old(self).broadcast.sender@.push(
                    AudioSinkAttachment {
                        owner_id: client.client_id,
                        owner_data: client.client_data,
                        closed: false,
                    },
                ) && final(self).broadcast.cmds() == (if old(self).broadcast.mid_stream() {
                    old(self).broadcast.cmds().push(
                        crate::broadcast_audio::AudioCommandView::Start {
                            recipients: seq![client.client_id],
                        },
                    )
                } else {
                    old(self).broadcast.cmds()
                })
            }),
    {
        self.broadcast.register_client(client);
        self.targets.push(client.client_id);
        proof {
            assert forall|id: u32| #[trigger] self.broadcast.spec_contains_client(id) implies self.targets@.contains(id) by {
                if old(self).broadcast.spec_contains_client(client.client_id)
                    || !client.can_send_audio() {
                    assert(self.broadcast == old(self).broadcast);
                } else {
                    assert(self.broadcast.sender@ == old(self).broadcast.sender@.push(
                        AudioSinkAttachment {
                            owner_id: client.client_id,
                            owner_data: client.client_data,
                            closed: false,
                        },
                    ));
                }
                let x = choose|x: int|
                    0 <= x < self.broadcast.sink_ids().len() && self.broadcast.sink_ids()[x]
                        == id;
                if x < old(self).broadcast.sender@.len() {
                    assert(self.broadcast.sender@[x].owner_id == id);
                    assert(old(self).broadcast.sender@[x] == self.broadcast.sender@[x]);
                    assert(old(self).broadcast.sink_ids()[x] == id);
                    assert(old(self).broadcast.spec_contains_client(id));
                    assert(old(self).targets@.contains(id));
                    let w = choose|w: int|
                        0 <= w < old(self).targets@.len() && old(self).targets@[w] == id;
                    assert(self.targets@[w] == id);
                } else {
                    assert(id == client.client_id);
                    assert(self.targets@[self.targets@.len() - 1] == id);
                }
            }
        }
    }

    /// One watchdog tick: runs the broadcast's own timeout test, then
    /// reports whether the session is finished because it saw no activity
    /// for longer than the idle window.
    pub fn tick(&mut self, now: u64) -> (finished: bool)
        requires
            old(self).wf(),
        ensures
            final(self).wf(),
            final(self).session_id == old(self).session_id,
            final(self).stream_id == old(self).stream_id,
            final(self).targets@ == old(self).targets@,
            finished == whisper_session_finished(*old(self), now),
            final(self).broadcast.sender@ == old(self).broadcast.sender@,
            final(self).broadcast.last_activity == old(self).broadcast.last_activity,
            (if audio_timeout_fires(old(self).broadcast, now) {
                final(self).broadcast.cmds() == old(self).broadcast.cmds().push(
                    crate::broadcast_audio::AudioCommandView::Stop {
                        recipients: old(self).broadcast.sink_ids(),
                        reason: crate::broadcast_audio::AudioStopReason::Timeout,
                    },
                ) && !final(self).broadcast.mid_stream()
            } else {
                final(self).broadcast == old(self).broadcast
            }),
    {
        self.broadcast.test_timeout(now);
        proof {
            assert forall|id: u32| #[trigger] self.broadcast.spec_contains_client(id) implies self.targets@.contains(id) by {
                assert(self.broadcast.sender@ == old(self).broadcast.sender@);
                assert(old(self).broadcast.spec_contains_client(id));
            }
        }
        let last_activity = self.broadcast.last_activity();
        let idle_ms: u64 = if now >= last_activity {
            now - last_activity
        } else {
            0
        };
        idle_ms / 1000 > 10
    }
}

/// Law: a whisper session reports itself finished exactly when its
/// broadcast saw no activity for more than ten full seconds before `now`.
pub open spec fn whisper_session_finished(s: WhisperSession, now: u64) -> bool {
    now >= s.broadcast.last_activity && (now - s.broadcast.last_activity) / 1000 > 10
}

} // verus!
