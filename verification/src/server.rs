//! The server registry: id allocation and top-level ownership of clients
//! and channels, and the routing of external calls to the right one.
use vstd::prelude::*;
use crate::broadcast_video::VideoBroadcastMode;
use crate::broadcast_video::VideoBroadcastOptions;
use crate::channel::BroadcastStartResult;
use crate::channel::Channel;
use crate::channel::VideoBroadcastJoinResult;
use crate::client::Client;
use crate::source::ClientData;

verus! {

/// How assigning a client to a channel went.
#[derive(Clone, Copy, Debug, PartialEq, Eq, Structural)]
pub enum ChannelAssignResult {
    Success,
    ClientUnknown,
    TargetChannelUnknown,
}

impl ChannelAssignResult {
    /// The wire code of this result.
    pub fn code(self) -> (r: u32)
        ensures
            r == (match self {
                ChannelAssignResult::Success => 0u32,
                ChannelAssignResult::ClientUnknown => 1u32,
                ChannelAssignResult::TargetChannelUnknown => 2u32,
            }),
    {
        match self {
            ChannelAssignResult::Success => 0,
            ChannelAssignResult::ClientUnknown => 1,
            ChannelAssignResult::TargetChannelUnknown => 2,
        }
    }
}

/// Why configuring a whisper session failed.
#[derive(Clone, Copy, Debug, PartialEq, Eq, Structural)]
pub enum WhisperConfigureError {
    /// No client with the given id exists.
    InvalidClient,
    /// A new session was needed but the client has no audio source.
    ClientHasNoSource,
}

/// The top-level registry.
pub struct Server {
    /// All clients, in creation order.
    pub clients: Vec<Client>,
    /// The next client id to hand out; never zero when handed out.
    pub client_id_index: u32,
    /// All channels, in creation order.
    pub channels: Vec<Channel>,
    /// The next channel id to hand out; never zero when handed out.
    pub channel_id_index: u32,
    /// Which channel each client currently sits in; absent means none.
    pub client_channel_assignments: Vec<(u32, u32)>,
    /// The next whisper session id to hand out; never handed out as zero.
    pub whisper_session_id_index: u32,
}

impl Server {
    /// Ids are unique, every part is well formed, and no assignment maps a
    /// client to channel zero.
    pub open spec fn wf(self) -> bool {
        &&& forall|i: int, j: int|
            0 <= i < j < self.clients@.len() ==> self.clients@[i].client_id
                != self.clients@[j].client_id
        &&& forall|i: int| 0 <= i < self.clients@.len() ==> (#[trigger] self.clients@[i]).wf()
        &&& forall|i: int, j: int|
            0 <= i < j < self.channels@.len() ==> self.channels@[i].id != self.channels@[j].id
        &&& forall|i: int| 0 <= i < self.channels@.len() ==> (#[trigger] self.channels@[i]).wf()
        &&& forall|i: int| 0 <= i < self.channels@.len() ==> (#[trigger] self.channels@[i]).id != 0
        &&& forall|i: int, j: int|
            0 <= i < j < self.client_channel_assignments@.len() ==> self.client_channel_assignments@[i].0 != self.client_channel_assignments@[j].0
    }

    /// Whether a client with this id exists.
    pub open spec fn spec_has_client(self, client_id: u32) -> bool {
        exists|i: int| 0 <= i < self.clients@.len() && self.clients@[i].client_id == client_id
    }

    /// Whether a channel with this id exists.
    pub open spec fn spec_has_channel(self, channel_id: u32) -> bool {
        exists|i: int| 0 <= i < self.channels@.len() && self.channels@[i].id == channel_id
    }

    /// The channel this client is assigned to, if any.
    pub open spec fn spec_assignment(self, client_id: u32) -> Option<u32> {
        if exists|i: int|
            0 <= i < self.client_channel_assignments@.len()
                && self.client_channel_assignments@[i].0 == client_id {
            Some(
                self.client_channel_assignments@[choose|i: int|
                    0 <= i < self.client_channel_assignments@.len()
                        && self.client_channel_assignments@[i].0 == client_id].1,
            )
        } else {
            None
        }
    }

    /// A just-created client entry: the given id and handle, no
    /// connections, no whisper session.
    pub open spec fn fresh_client(c: Client, client_id: u32, data: ClientData) -> bool {
        &&& c.client_id == client_id
        &&& c.client_data == data
        &&& !c.rtc_connection
        &&& !c.native_connection
        &&& c.whisper_session is None
        &&& c.whisper_session_id == 0
    }

    /// A just-created channel entry: the given id, no members, no
    /// broadcasts, no directory update owed.
    pub open spec fn fresh_channel(c: Channel, channel_id: u32) -> bool {
        &&& c.id == channel_id
        &&& c.clients@ == Seq::<crate::client::ClientInfo>::empty()
        &&& c.audio_broadcasts@ == Seq::<crate::broadcast_audio::ClientAudioBroadcaster>::empty()
        &&& c.video_broadcasts@ == Seq::<crate::broadcast_video::ClientVideoBroadcaster>::empty()
        &&& !c.video_broadcast_update_pending
    }

    /// A fresh registry with no clients and no channels.
    pub fn new() -> (r: Server)
        ensures
            r.wf(),
            r.clients@ == Seq::<Client>::empty(),
            r.channels@ == Seq::<Channel>::empty(),
            r.client_channel_assignments@ == Seq::<(u32, u32)>::empty(),
            r.client_id_index == 1,
            r.channel_id_index == 1,
            r.whisper_session_id_index == 1,
    {
        Server {
            clients: Vec::new(),
            client_id_index: 1,
            channels: Vec::new(),
            channel_id_index: 1,
            client_channel_assignments: Vec::new(),
            whisper_session_id_index: 1,
        }
    }

    /// The index of the client with this id.
    fn find_client_index(&self, client_id: u32) -> (r: Option<usize>)
        ensures
            (match r {
                Some(i) => i < self.clients@.len() && self.clients@[i as int].client_id
                    == client_id,
                None => !self.spec_has_client(client_id),
            }),
    {
        let mut i: usize = 0;
        while i < self.clients.len()
            invariant
                i <= self.clients@.len(),
                forall|j: int| 0 <= j < i ==> self.clients@[j].client_id != client_id,
            decreases self.clients@.len() - i,
        {
            if self.clients[i].client_id == client_id {
                return Some(i);
            }
            i = i + 1;
        }
        None
    }

    /// The index of the channel with this id.
    fn find_channel_index(&self, channel_id: u32) -> (r: Option<usize>)
        ensures
            (match r {
                Some(i) => i < self.channels@.len() && self.channels@[i as int].id == channel_id,
                None => !self.spec_has_channel(channel_id),
            }),
    {
        let mut i: usize = 0;
        while i < self.channels.len()
            invariant
                i <= self.channels@.len(),
                forall|j: int| 0 <= j < i ==> self.channels@[j].id != channel_id,
            decreases self.channels@.len() - i,
        {
            if self.channels[i].id == channel_id {
                return Some(i);
            }
            i = i + 1;
        }
        None
    }

    /// A borrow of the client with this id.
    pub fn find_client(&self, client_id: u32) -> (r: Option<&Client>)
        ensures
            (match r {
                Some(c) => self.spec_has_client(client_id) && c.client_id == client_id && exists|
                    i: int,
                |
                    0 <= i < self.clients@.len() && *c == self.clients@[i],
                None => !self.spec_has_client(client_id),
            }),
    {
        match self.find_client_index(client_id) {
            Some(i) => {
                proof {
                    assert(self.clients@[i as int] == self.clients@[i as int]);
                }
                Some(&self.clients[i])
            },
            None => None,
        }
    }

    /// A borrow of the channel with this id.
    pub fn find_channel(&self, channel_id: u32) -> (r: Option<&Channel>)
        ensures
            (match r {
                Some(c) => self.spec_has_channel(channel_id) && c.id == channel_id && exists|
                    i: int,
                |
                    0 <= i < self.channels@.len() && *c == self.channels@[i],
                None => !self.spec_has_channel(channel_id),
            }),
    {
        match self.find_channel_index(channel_id) {
            Some(i) => {
                proof {
                    assert(self.channels@[i as int] == self.channels@[i as int]);
                }
                Some(&self.channels[i])
            },
            None => None,
        }
    }

    /// The channel id this client is assigned to, if any.
    pub fn get_channel_id(&self, client_id: u32) -> (r: Option<u32>)
        requires
            self.wf(),
        ensures
            r == self.spec_assignment(client_id),
    {
        let mut i: usize = 0;
        while i < self.client_channel_assignments.len()
            invariant
                i <= self.client_channel_assignments@.len(),
                self.wf(),
                forall|j: int|
                    0 <= j < i ==> self.client_channel_assignments@[j].0 != client_id,
            decreases self.client_channel_assignments@.len() - i,
        {
            if self.client_channel_assignments[i].0 == client_id {
                proof {
                    let w = choose|w: int|
                        0 <= w < self.client_channel_assignments@.len()
                            && self.client_channel_assignments@[w].0 == client_id;
                    assert(w == i as int);
                }
                return Some(self.client_channel_assignments[i].1);
            }
            i = i + 1;
        }
        None
    }

    /// Creates a client under a fresh id (ids wrap but skip zero) and
    /// returns the id.  A client that still sits on a recycled id is
    /// replaced, as a map insert would.
    pub fn create_client(&mut self, data: ClientData) -> (r: u32)
        requires
            old(self).wf(),
        ensures
            final(self).wf(),
            r != 0,
            final(self).spec_has_client(r),
            final(self).channels@ == old(self).channels@,
            final(self).client_channel_assignments@ == old(self).client_channel_assignments@,
            final(self).whisper_session_id_index == old(self).whisper_session_id_index,
            (if old(self).spec_has_client(r) {
                exists|i: int|
                    0 <= i < old(self).clients@.len() && old(self).clients@[i].client_id == r
                        && final(self).clients@.len() == old(self).clients@.len() && Self::fresh_client(final(self).clients@[i], r, data) && (forall|j: int|
                        0 <= j < old(self).clients@.len() && j != i ==> final(self).clients@[j]
                            == old(self).clients@[j])
            } else {
                final(self).clients@.len() == old(self).clients@.len() + 1 && final(self).clients@.subrange(0, old(self).clients@.len() as int) == old(self).clients@
                    && Self::fresh_client(final(self).clients@.last(), r, data)
            }),
    {
        if self.client_id_index == 0 {
            self.client_id_index = 1;
        }
        let client_id = self.client_id_index;
        self.client_id_index = self.client_id_index.wrapping_add(1);
        let client = Client::new(client_id, data);
        match self.find_client_index(client_id) {
            Some(i) => {
                self.clients[i] = client;
                proof {
                    assert forall|a: int, b: int|
                        0 <= a < b < self.clients@.len() implies self.clients@[a].client_id
                        != self.clients@[b].client_id by {
                        assert(self.clients@[a].client_id == old(self).clients@[a].client_id);
                        assert(self.clients@[b].client_id == old(self).clients@[b].client_id);
                    }
                    assert(self.clients@[i as int].client_id == client_id);
                }
            },
            None => {
                self.clients.push(client);
                proof {
                    assert(self.clients@[self.clients@.len() - 1].client_id == client_id);
                }
            },
        }
        client_id
    }

    /// Creates a channel under a fresh id (ids wrap but skip zero) and
    /// returns the id.  A channel that still sits on a recycled id is
    /// replaced, as a map insert would.
    pub fn create_channel(&mut self) -> (r: u32)
        requires
            old(self).wf(),
        ensures
            final(self).wf(),
            r != 0,
            final(self).spec_has_channel(r),
            final(self).clients@ == old(self).clients@,
            final(self).client_channel_assignments@ == old(self).client_channel_assignments@,
            final(self).whisper_session_id_index == old(self).whisper_session_id_index,
            (if old(self).spec_has_channel(r) {
                exists|i: int|
                    0 <= i < old(self).channels@.len() && old(self).channels@[i].id == r && final(self).channels@.len() == old(self).channels@.len() && Self::fresh_channel(
                        final(self).channels@[i],
                        r,
                    ) && (forall|j: int|
                        0 <= j < old(self).channels@.len() && j != i ==> final(self).channels@[j]
                            == old(self).channels@[j])
            } else {
                final(self).channels@.len() == old(self).channels@.len() + 1 && final(self).channels@.subrange(0, old(self).channels@.len() as int) == old(self).channels@
                    && Self::fresh_channel(final(self).channels@.last(), r)
            }),
    {
        if self.channel_id_index == 0 {
            self.channel_id_index = 1;
        }
        let channel_id = self.channel_id_index;
        self.channel_id_index = self.channel_id_index.wrapping_add(1);
        let channel = Channel::new(channel_id);
        match self.find_channel_index(channel_id) {
            Some(i) => {
                self.channels[i] = channel;
                proof {
                    assert forall|a: int, b: int|
                        0 <= a < b < self.channels@.len() implies self.channels@[a].id
                        != self.channels@[b].id by {
                        assert(self.channels@[a].id == old(self).channels@[a].id);
                        assert(self.channels@[b].id == old(self).channels@[b].id);
                    }
                    assert(self.channels@[i as int].id == channel_id);
                }
            },
            None => {
                self.channels.push(channel);
                proof {
                    assert(self.channels@[self.channels@.len() - 1].id == channel_id);
                }
            },
        }
        channel_id
    }

    /// Removes this client's channel assignment (unregistering it from its
    /// channel) and, when `channel_id` is not zero, assigns and registers
    /// it to that channel.  Assignment to channel zero just leaves the
    /// client without a channel.
    pub fn assign_channel(&mut self, client_id: u32, channel_id: u32) -> (r: ChannelAssignResult)
        requires
            old(self).wf(),
        ensures
            final(self).wf(),
            final(self).clients@ == old(self).clients@,
            final(self).channels@.len() == old(self).channels@.len(),
            final(self).whisper_session_id_index == old(self).whisper_session_id_index,
            r == (if !old(self).spec_has_client(client_id) {
                ChannelAssignResult::ClientUnknown
            } else if channel_id != 0 && !old(self).spec_has_channel(channel_id) {
                ChannelAssignResult::TargetChannelUnknown
            } else {
                ChannelAssignResult::Success
            }),
            (if r is Success {
                final(self).spec_assignment(client_id) == (if channel_id != 0 {
                    Some(channel_id)
                } else {
                    None::<u32>
                }) && (channel_id != 0 ==> exists|k: int|
                    0 <= k < final(self).channels@.len() && final(self).channels@[k].id
                        == channel_id && (#[trigger] final(self).channels@[k]).spec_has_member(
                        client_id,
                    ))
            } else {
                final(self).channels@ == old(self).channels@
                    && final(self).client_channel_assignments@ == old(self).client_channel_assignments@
            }),
            r is Success ==> forall|k: int|
                0 <= k < old(self).channels@.len() && old(self).spec_assignment(client_id)
                    != Some((#[trigger] old(self).channels@[k]).id) && old(self).channels@[k].id
                    != channel_id ==> final(self).channels@[k] == old(self).channels@[k],
            r is Success ==> forall|k: int|
                0 <= k < old(self).channels@.len() && old(self).spec_assignment(client_id)
                    == Some((#[trigger] old(self).channels@[k]).id) && old(self).channels@[k].id
                    != channel_id ==> crate::channel::member_unregister_effect(
                    old(self).channels@[k],
                    final(self).channels@[k],
                    client_id,
                    false,
                ),
            r is Success ==> forall|k: int|
                0 <= k < old(self).channels@.len() && (#[trigger] old(self).channels@[k]).id
                    == channel_id && old(self).spec_assignment(client_id) != Some(channel_id)
                    ==> exists|ci: int|
                    0 <= ci < old(self).clients@.len() && old(self).clients@[ci].client_id
                        == client_id && crate::channel::member_register_effect(
                        old(self).channels@[k],
                        final(self).channels@[k],
                        (#[trigger] old(self).clients@[ci]).spec_info(),
                    ),
            r is Success ==> forall|k: int|
                0 <= k < old(self).channels@.len() && (#[trigger] old(self).channels@[k]).id
                    == channel_id && old(self).spec_assignment(client_id) == Some(channel_id)
                    ==> exists|mid_ch: Channel, ci: int|
                    #![trigger crate::channel::member_unregister_effect(
                        old(self).channels@[k],
                        mid_ch,
                        client_id,
                        false,
                    ), old(self).clients@[ci]]
                    crate::channel::member_unregister_effect(
                        old(self).channels@[k],
                        mid_ch,
                        client_id,
                        false,
                    ) && 0 <= ci < old(self).clients@.len() && old(self).clients@[ci].client_id
                        == client_id && crate::channel::member_register_effect(
                        mid_ch,
                        final(self).channels@[k],
                        old(self).clients@[ci].spec_info(),
                    ),
    {
        let ci = match self.find_client_index(client_id) {
            Some(i) => i,
            None => {
                return ChannelAssignResult::ClientUnknown;
            },
        };
        let target = match self.find_channel_index(channel_id) {
            Some(i) => Some(i),
            None => {
                if channel_id != 0 {
                    return ChannelAssignResult::TargetChannelUnknown;
                }
                None
            },
        };

        // Remove the client from its old channel, if it sat in one.
        let mut a: usize = 0;
        let mut assignment_at: Option<usize> = None;
        while a < self.client_channel_assignments.len()
            invariant_except_break
                a <= self.client_channel_assignments@.len(),
                self.client_channel_assignments@ == old(self).client_channel_assignments@,
                assignment_at is None,
                forall|j: int|
                    0 <= j < a ==> self.client_channel_assignments@[j].0 != client_id,
            ensures
                self.client_channel_assignments@ == old(self).client_channel_assignments@,
                (match assignment_at {
                    Some(w) => w < self.client_channel_assignments@.len()
                        && self.client_channel_assignments@[w as int].0 == client_id,
                    None => forall|j: int|
                        0 <= j < self.client_channel_assignments@.len()
                            ==> self.client_channel_assignments@[j].0 != client_id,
                }),
            decreases self.client_channel_assignments@.len() - a,
        {
            if self.client_channel_assignments[a].0 == client_id {
                assignment_at = Some(a);
                break ;
            }
            a = a + 1;
        }
        let mut old_channel: Option<u32> = None;
        match assignment_at {
            Some(w) => {
                old_channel = Some(self.client_channel_assignments[w].1);
                let ghost pre_assign = self.client_channel_assignments@;
                self.client_channel_assignments.remove(w);
                proof {
                    assert forall|i: int, j: int|
                        0 <= i < j < self.client_channel_assignments@.len() implies self.client_channel_assignments@[i].0 != self.client_channel_assignments@[j].0 by {
                        let i0 = if i < w {
                            i
                        } else {
                            i + 1
                        };
                        let j0 = if j < w {
                            j
                        } else {
                            j + 1
                        };
                        assert(self.client_channel_assignments@[i] == pre_assign[i0]);
                        assert(self.client_channel_assignments@[j] == pre_assign[j0]);
                    }
                    assert forall|j: int|
                        0 <= j < self.client_channel_assignments@.len() implies self.client_channel_assignments@[j].0 != client_id by {
                        if j < w {
                            assert(self.client_channel_assignments@[j] == pre_assign[j]);
                        } else {
                            assert(self.client_channel_assignments@[j] == pre_assign[j + 1]);
                        }
                        assert(old(self).wf());
                    }
                }
            },
            None => {},
        }
        match old_channel {
            Some(old_channel_id) => {
                match self.find_channel_index(old_channel_id) {
                    Some(k) => {
                        proof {
                            assert forall|k2: int|
                                0 <= k2 < old(self).channels@.len() && old(self).channels@[k2].id
                                    == old_channel_id implies k2 == k as int by {
                                if k2 != k as int {
                                    assert(old(self).channels@[k2].id != old(self).channels@[k as int].id);
                                }
                            }
                        }
                        self.channels[k].unregister_client(client_id, false);
                        proof {
                            assert forall|i: int, j: int|
                                0 <= i < j < self.channels@.len() implies self.channels@[i].id
                                != self.channels@[j].id by {
                                assert(self.channels@[i].id == old(self).channels@[i].id);
                                assert(self.channels@[j].id == old(self).channels@[j].id);
                            }
                        }
                    },
                    None => {},
                }
            },
            None => {},
        }
        let ghost mid_channels = self.channels@;

        match target {
            Some(t) => {
                self.client_channel_assignments.push((client_id, channel_id));
                let info = self.clients[ci].info();
                self.channels[t].register_client(info);
                proof {
                    assert forall|i: int, j: int|
                        0 <= i < j < self.channels@.len() implies self.channels@[i].id
                        != self.channels@[j].id by {
                        assert(self.channels@[i].id == old(self).channels@[i].id);
                        assert(self.channels@[j].id == old(self).channels@[j].id);
                    }
                    let last = self.client_channel_assignments@.len() - 1;
                    assert(self.client_channel_assignments@[last].0 == client_id);
                    assert forall|i: int, j: int|
                        0 <= i < j < self.client_channel_assignments@.len() implies self.client_channel_assignments@[i].0 != self.client_channel_assignments@[j].0 by {
                        if j == last {
                            assert(self.client_channel_assignments@[i].0 != client_id);
                        }
                    }
                    let w = choose|w: int|
                        0 <= w < self.client_channel_assignments@.len()
                            && self.client_channel_assignments@[w].0 == client_id;
                    assert(w == last);
                    assert(self.channels@[t as int].id == channel_id);
                    assert(self.channels@[t as int].spec_has_member(client_id));
                    assert forall|k2: int|
                        0 <= k2 < old(self).channels@.len() && old(self).channels@[k2].id
                            == channel_id implies k2 == t as int by {
                        if k2 != t as int {
                            assert(old(self).channels@[k2].id != old(self).channels@[t as int].id);
                        }
                    }
                    assert(old(self).clients@[ci as int].client_id == client_id);
                    assert(old(self).clients@[ci as int].spec_info() == info);
                    assert(crate::channel::member_register_effect(
                        mid_channels[t as int],
                        self.channels@[t as int],
                        info,
                    ));
                }
            },
            None => {},
        }
        ChannelAssignResult::Success
    }

    /// Removes a client: it is unregistered from its channel first, and
    /// reports whether a client was removed at all.
    pub fn destroy_client(&mut self, client_id: u32) -> (r: bool)
        requires
            old(self).wf(),
        ensures
            final(self).wf(),
            r == old(self).spec_has_client(client_id),
            !final(self).spec_has_client(client_id),
            r ==> final(self).spec_assignment(client_id) is None,
            (if old(self).spec_has_client(client_id) {
                exists|i: int|
                    0 <= i < old(self).clients@.len() && old(self).clients@[i].client_id
                        == client_id && final(self).clients@ == old(self).clients@.remove(i)
            } else {
                final(self).clients@ == old(self).clients@
            }),
            final(self).channels@.len() == old(self).channels@.len(),
            forall|k: int|
                0 <= k < old(self).channels@.len() ==> (#[trigger] final(self).channels@[k])
                    == old(self).channels@[k] || crate::channel::member_unregister_effect(
                    old(self).channels@[k],
                    final(self).channels@[k],
                    client_id,
                    false,
                ),
    {
        self.assign_channel(client_id, 0);
        match self.find_client_index(client_id) {
            Some(i) => {
                let ghost pre = *self;
                self.clients.remove(i);
                proof {
                    assert forall|k: int|
                        0 <= k < self.clients@.len() implies self.clients@[k].client_id
                        != client_id by {
                        if k < i {
                            assert(self.clients@[k] == pre.clients@[k]);
                        } else {
                            assert(self.clients@[k] == pre.clients@[k + 1]);
                        }
                    }
                    assert forall|a: int, b: int|
                        0 <= a < b < self.clients@.len() implies self.clients@[a].client_id
                        != self.clients@[b].client_id by {
                        let a0 = if a < i {
                            a
                        } else {
                            a + 1
                        };
                        let b0 = if b < i {
                            b
                        } else {
                            b + 1
                        };
                        assert(self.clients@[a] == pre.clients@[a0]);
                        assert(self.clients@[b] == pre.clients@[b0]);
                    }
                    assert forall|k: int| 0 <= k < self.clients@.len() implies (
                    #[trigger] self.clients@[k]).wf() by {
                        if k < i {
                            assert(self.clients@[k] == pre.clients@[k]);
                        } else {
                            assert(self.clients@[k] == pre.clients@[k + 1]);
                        }
                    }
                }
                true
            },
            None => false,
        }
    }

    /// Removes a channel; its member clients simply lose their channel (a
    /// reassignment to no channel), and reports whether a channel was
    /// removed at all.
    pub fn destroy_channel(&mut self, channel_id: u32) -> (r: bool)
        requires
            old(self).wf(),
        ensures
            final(self).wf(),
            r == old(self).spec_has_channel(channel_id),
            !final(self).spec_has_channel(channel_id),
            final(self).clients@ == old(self).clients@,
            forall|j: int|
                0 <= j < final(self).client_channel_assignments@.len() ==> (
                #[trigger] final(self).client_channel_assignments@[j]).1 != channel_id,
            final(self).client_channel_assignments@ == old(self).client_channel_assignments@.filter(|e: (u32, u32)| e.1 != channel_id),
            (if old(self).spec_has_channel(channel_id) {
                exists|i: int|
                    0 <= i < old(self).channels@.len() && old(self).channels@[i].id == channel_id
                        && final(self).channels@ == old(self).channels@.remove(i)
            } else {
                final(self).channels@ == old(self).channels@
            }),
    {
        let found = match self.find_channel_index(channel_id) {
            Some(i) => {
                let ghost pre = *self;
                self.channels.remove(i);
                proof {
                    assert forall|k: int|
                        0 <= k < self.channels@.len() implies self.channels@[k].id
                        != channel_id by {
                        if k < i {
                            assert(self.channels@[k] == pre.channels@[k]);
                        } else {
                            assert(self.channels@[k] == pre.channels@[k + 1]);
                        }
                    }
                    assert forall|a: int, b: int|
                        0 <= a < b < self.channels@.len() implies self.channels@[a].id
                        != self.channels@[b].id by {
                        let a0 = if a < i {
                            a
                        } else {
                            a + 1
                        };
                        let b0 = if b < i {
                            b
                        } else {
                            b + 1
                        };
                        assert(self.channels@[a] == pre.channels@[a0]);
                        assert(self.channels@[b] == pre.channels@[b0]);
                    }
                    assert forall|k: int| 0 <= k < self.channels@.len() implies (
                    #[trigger] self.channels@[k]).wf() by {
                        if k < i {
                            assert(self.channels@[k] == pre.channels@[k]);
                        } else {
                            assert(self.channels@[k] == pre.channels@[k + 1]);
                        }
                    }
                }
                true
            },
            None => false,
        };
        let ghost mid = *self;
        let mut j: usize = 0;
        let mut kept: Vec<(u32, u32)> = Vec::new();
        proof {
            assert(mid.client_channel_assignments@.subrange(0, 0).filter(
                |e: (u32, u32)| e.1 != channel_id,
            ) =~= Seq::<(u32, u32)>::empty());
        }
        while j < self.client_channel_assignments.len()
            invariant
                j <= self.client_channel_assignments@.len(),
                self.client_channel_assignments@ == mid.client_channel_assignments@,
                self.clients@ == mid.clients@,
                self.channels@ == mid.channels@,
                self.whisper_session_id_index == mid.whisper_session_id_index,
                kept@ == mid.client_channel_assignments@.subrange(0, j as int).filter(
                    |e: (u32, u32)| e.1 != channel_id,
                ),
            decreases self.client_channel_assignments@.len() - j,
        {
            let ghost prefix = mid.client_channel_assignments@.subrange(0, j as int);
            let ghost prefix1 = mid.client_channel_assignments@.subrange(0, j + 1);
            let entry = self.client_channel_assignments[j];
            if entry.1 != channel_id {
                kept.push(entry);
            }
            proof {
                assert(prefix1.drop_last() =~= prefix);
                reveal(Seq::filter);
                assert(kept@ =~= prefix1.filter(|e: (u32, u32)| e.1 != channel_id));
            }
            j = j + 1;
        }
        proof {
            assert(mid.client_channel_assignments@.subrange(
                0,
                mid.client_channel_assignments@.len() as int,
            ) =~= mid.client_channel_assignments@);
        }
        self.client_channel_assignments = kept;
        proof {
            let pred = |e: (u32, u32)| e.1 != channel_id;
            broadcast use vstd::seq_lib::group_filter_ensures;

            crate::lemma_filter_keeps_distinct_keys(
                mid.client_channel_assignments@,
                pred,
                |e: (u32, u32)| e.0,
            );
        }
        found
    }

    /// Runs one timeout sweep over every channel's broadcasts.
    pub fn sweep_timeouts(&mut self, now: u64)
        requires
            old(self).wf(),
        ensures
            final(self).wf(),
            final(self).clients@ == old(self).clients@,
            final(self).client_channel_assignments@ == old(self).client_channel_assignments@,
            final(self).channels@.len() == old(self).channels@.len(),
            forall|k: int|
                0 <= k < final(self).channels@.len() ==> (#[trigger] final(self).channels@[k]).id
                    == old(self).channels@[k].id,
            forall|k: int|
                0 <= k < old(self).channels@.len() ==> crate::channel::sweep_effect(
                    old(self).channels@[k],
                    (#[trigger] final(self).channels@[k]),
                    now,
                ),
    {
        let mut k: usize = 0;
        while k < self.channels.len()
            invariant
                k <= self.channels@.len(),
                old(self).wf(),
                self.clients@ == old(self).clients@,
                self.client_channel_assignments@ == old(self).client_channel_assignments@,
                self.whisper_session_id_index == old(self).whisper_session_id_index,
                self.channels@.len() == old(self).channels@.len(),
                forall|j: int|
                    k <= j < self.channels@.len() ==> self.channels@[j] == old(self).channels@[j],
                forall|j: int|
                    0 <= j < k ==> (#[trigger] self.channels@[j]).wf() && self.channels@[j].id
                        == old(self).channels@[j].id,
                forall|j: int|
                    0 <= j < k ==> crate::channel::sweep_effect(
                        old(self).channels@[j],
                        (#[trigger] self.channels@[j]),
                        now,
                    ),
            decreases self.channels@.len() - k,
        {
            self.channels[k].sweep_timeouts(now);
            k = k + 1;
        }
        proof {
            assert forall|k: int|
                0 <= k < old(self).channels@.len() implies crate::channel::sweep_effect(
                old(self).channels@[k],
                (#[trigger] self.channels@[k]),
                now,
            ) by {}
        }
        proof {
            assert forall|i: int, j: int|
                0 <= i < j < self.channels@.len() implies self.channels@[i].id
                != self.channels@[j].id by {
                assert(self.channels@[i].id == old(self).channels@[i].id);
                assert(self.channels@[j].id == old(self).channels@[j].id);
            }
        }
    }
}


impl Server {
    /// Starts channel audio for a client (stream id zero is a plain stop of
    /// the previous broadcast).  Status codes: 0 done, 2 no channel or
    /// unknown client, 4 invalid stream, 5 bad configuration.
    pub fn broadcast_audio(&mut self, client_id: u32, stream_id: u32, now: u64) -> (r: u32)
        requires
            old(self).wf(),
        ensures
            final(self).wf(),
            final(self).clients@ == old(self).clients@,
            r == 0 || r == 2 || r == 4,
            old(self).spec_assignment(client_id) is None ==> r == 2 && final(self).channels@
                == old(self).channels@,
            forall|k: int|
                0 <= k < old(self).channels@.len() && old(self).spec_assignment(client_id)
                    == Some((#[trigger] old(self).channels@[k]).id) ==> r == (if !old(self).channels@[k].spec_has_member(client_id) {
                    2u32
                } else if !(exists|w: int|
                    0 <= w < old(self).channels@[k].clients@.len()
                        && old(self).channels@[k].clients@[w].client_id == client_id && (
                    #[trigger] old(self).channels@[k].clients@[w]).can_source_audio()) {
                    if stream_id == 0 {
                        0u32
                    } else {
                        4u32
                    }
                } else {
                    0u32
                }),
            final(self).client_channel_assignments@ == old(self).client_channel_assignments@,
            final(self).channels@.len() == old(self).channels@.len(),
            forall|k: int|
                0 <= k < old(self).channels@.len() && old(self).spec_assignment(client_id)
                    == Some((#[trigger] old(self).channels@[k]).id) ==> crate::channel::start_audio_effect(
                    old(self).channels@[k],
                    final(self).channels@[k],
                    client_id,
                    stream_id,
                    now,
                ) && (forall|j: int|
                    0 <= j < old(self).channels@.len() && j != k ==> final(self).channels@[j]
                        == old(self).channels@[j]),
    {
        let channel_id = match self.get_channel_id(client_id) {
            Some(c) => c,
            None => {
                return 2;
            },
        };
        let k = match self.find_channel_index(channel_id) {
            Some(k) => k,
            None => {
                return 2;
            },
        };
        proof {
            assert forall|k2: int|
                0 <= k2 < old(self).channels@.len() && old(self).channels@[k2].id
                    == channel_id implies k2 == k as int by {
                if k2 != k as int {
                    assert(old(self).channels@[k2].id != old(self).channels@[k as int].id);
                }
            }
        }
        let result = self.channels[k].broadcast_client_audio(client_id, stream_id, now);
        proof {
            assert forall|i: int, j: int|
                0 <= i < j < self.channels@.len() implies self.channels@[i].id
                != self.channels@[j].id by {
                assert(self.channels@[i].id == old(self).channels@[i].id);
                assert(self.channels@[j].id == old(self).channels@[j].id);
            }
            assert forall|i: int| 0 <= i < self.channels@.len() implies (
            #[trigger] self.channels@[i]).id != 0 by {
                assert(self.channels@[i].id == old(self).channels@[i].id);
            }
            assert forall|k2: int|
                0 <= k2 < old(self).channels@.len() && old(self).channels@[k2].id
                    == channel_id implies k2 == k as int by {
                if k2 != k as int {
                    assert(old(self).channels@[k2].id != old(self).channels@[k as int].id);
                }
            }
        }
        match result {
            BroadcastStartResult::ClientHasNoSource => if stream_id == 0 {
                0
            } else {
                4
            },
            BroadcastStartResult::InvalidClient => 2,
            BroadcastStartResult::Succeeded => 0,
            BroadcastStartResult::ConfigError(_) => 5,
        }
    }

    /// Starts a video broadcast for a client.  Status codes: 0 done, 2 no
    /// channel or unknown client, 3 invalid broadcast kind, 4 invalid
    /// stream, 5 bad configuration.
    pub fn broadcast_video(
        &mut self,
        client_id: u32,
        btype: u8,
        stream_id: u32,
        config: &VideoBroadcastOptions,
        now: u64,
    ) -> (r: u32)
        requires
            old(self).wf(),
            now + crate::broadcast_video::pli_min_request_interval() <= u64::MAX,
        ensures
            final(self).wf(),
            final(self).clients@ == old(self).clients@,
            r == 0 || r == 2 || r == 3 || r == 4,
            btype > 1 ==> r == 3 && final(self).channels@ == old(self).channels@,
            btype <= 1 && old(self).spec_assignment(client_id) is None ==> r == 2 && final(self).channels@ == old(self).channels@,
            btype <= 1 ==> forall|k: int|
                0 <= k < old(self).channels@.len() && old(self).spec_assignment(client_id)
                    == Some((#[trigger] old(self).channels@[k]).id) ==> r == (if !old(self).channels@[k].spec_has_member(client_id) {
                    2u32
                } else if !(exists|w: int|
                    0 <= w < old(self).channels@[k].clients@.len()
                        && old(self).channels@[k].clients@[w].client_id == client_id && (
                    #[trigger] old(self).channels@[k].clients@[w]).can_source_video()) {
                    if stream_id == 0 {
                        0u32
                    } else {
                        4u32
                    }
                } else {
                    0u32
                }),
            final(self).client_channel_assignments@ == old(self).client_channel_assignments@,
            final(self).channels@.len() == old(self).channels@.len(),
            btype <= 1 ==> forall|k: int|
                0 <= k < old(self).channels@.len() && old(self).spec_assignment(client_id)
                    == Some((#[trigger] old(self).channels@[k]).id) ==> crate::channel::start_video_effect(
                    old(self).channels@[k],
                    final(self).channels@[k],
                    client_id,
                    stream_id,
                    (if btype == 0 {
                        VideoBroadcastMode::Camera
                    } else {
                        VideoBroadcastMode::Screen
                    }),
                    *config,
                    now,
                ) && (forall|j: int|
                    0 <= j < old(self).channels@.len() && j != k ==> final(self).channels@[j]
                        == old(self).channels@[j]),
    {
        let broadcast_type = match btype {
            0u8 => VideoBroadcastMode::Camera,
            1u8 => VideoBroadcastMode::Screen,
            _ => {
                return 3;
            },
        };
        let channel_id = match self.get_channel_id(client_id) {
            Some(c) => c,
            None => {
                return 2;
            },
        };
        let k = match self.find_channel_index(channel_id) {
            Some(k) => k,
            None => {
                return 2;
            },
        };
        proof {
            assert forall|k2: int|
                0 <= k2 < old(self).channels@.len() && old(self).channels@[k2].id
                    == channel_id implies k2 == k as int by {
                if k2 != k as int {
                    assert(old(self).channels@[k2].id != old(self).channels@[k as int].id);
                }
            }
        }
        let result = self.channels[k].broadcast_client_video(
            client_id,
            stream_id,
            broadcast_type,
            config,
            now,
        );
        proof {
            assert forall|i: int, j: int|
                0 <= i < j < self.channels@.len() implies self.channels@[i].id
                != self.channels@[j].id by {
                assert(self.channels@[i].id == old(self).channels@[i].id);
                assert(self.channels@[j].id == old(self).channels@[j].id);
            }
            assert forall|i: int| 0 <= i < self.channels@.len() implies (
            #[trigger] self.channels@[i]).id != 0 by {
                assert(self.channels@[i].id == old(self).channels@[i].id);
            }
            assert forall|k2: int|
                0 <= k2 < old(self).channels@.len() && old(self).channels@[k2].id
                    == channel_id implies k2 == k as int by {
                if k2 != k as int {
                    assert(old(self).channels@[k2].id != old(self).channels@[k as int].id);
                }
            }
        }
        match result {
            BroadcastStartResult::ClientHasNoSource => if stream_id == 0 {
                0
            } else {
                4
            },
            BroadcastStartResult::InvalidClient => 2,
            BroadcastStartResult::Succeeded => 0,
            BroadcastStartResult::ConfigError(_) => 5,
        }
    }

    /// Applies a partial configuration update to a running video broadcast.
    /// Status codes: 0 done, 1 invalid broadcast kind, 2 unknown client or
    /// no channel, 3 the client is not broadcasting.
    pub fn configure_video_broadcast(
        &mut self,
        client_id: u32,
        btype: u8,
        config: &VideoBroadcastOptions,
    ) -> (r: u32)
        requires
            old(self).wf(),
        ensures
            final(self).wf(),
            final(self).clients@ == old(self).clients@,
            final(self).client_channel_assignments@ == old(self).client_channel_assignments@,
            final(self).channels@.len() == old(self).channels@.len(),
            r == 0 || r == 1 || r == 2 || r == 3,
            btype > 1 <==> r == 1,
            r != 0 ==> final(self).channels@ == old(self).channels@,
            btype <= 1 && old(self).spec_assignment(client_id) is None ==> r == 2,
            btype <= 1 ==> forall|k: int|
                0 <= k < old(self).channels@.len() && old(self).spec_assignment(client_id)
                    == Some((#[trigger] old(self).channels@[k]).id) ==> ({
                    let mode = (if btype == 0 {
                        VideoBroadcastMode::Camera
                    } else {
                        VideoBroadcastMode::Screen
                    });
                    &&& r == (if old(self).channels@[k].spec_has_video_broadcast(client_id, mode) {
                        0u32
                    } else {
                        3u32
                    })
                    &&& (r == 0 ==> exists|b: int|
                        0 <= b < old(self).channels@[k].video_broadcasts@.len() && (
                        #[trigger] old(self).channels@[k].video_broadcasts@[b]).source_client_id
                            == client_id && old(self).channels@[k].video_broadcasts@[b].mode
                            == mode && crate::broadcast_video::video_configure_effect(
                            old(self).channels@[k].video_broadcasts@[b],
                            final(self).channels@[k].video_broadcasts@[b],
                            *config,
                        ) && (forall|j: int|
                            0 <= j < old(self).channels@[k].video_broadcasts@.len() && j != b
                                ==> final(self).channels@[k].video_broadcasts@[j] == old(self).channels@[k].video_broadcasts@[j]) && final(self).channels@[k].id == old(self).channels@[k].id && final(self).channels@[k].clients@ == old(self).channels@[k].clients@ && final(self).channels@[k].audio_broadcasts@ == old(self).channels@[k].audio_broadcasts@ && final(self).channels@[k].video_broadcast_update_pending == old(self).channels@[k].video_broadcast_update_pending && (forall|j: int|
                            0 <= j < old(self).channels@.len() && j != k ==> final(self).channels@[j] == old(self).channels@[j]))
                }),
    {
        let broadcast_type = match btype {
            0u8 => VideoBroadcastMode::Camera,
            1u8 => VideoBroadcastMode::Screen,
            _ => {
                return 1;
            },
        };
        let channel_id = match self.get_channel_id(client_id) {
            Some(c) => c,
            None => {
                return 2;
            },
        };
        let k = match self.find_channel_index(channel_id) {
            Some(k) => k,
            None => {
                return 2;
            },
        };
        proof {
            assert forall|k2: int|
                0 <= k2 < old(self).channels@.len() && old(self).channels@[k2].id
                    == channel_id implies k2 == k as int by {
                if k2 != k as int {
                    assert(old(self).channels@[k2].id != old(self).channels@[k as int].id);
                }
            }
        }
        let b = match self.channels[k].find_video_broadcast_index(client_id, broadcast_type) {
            Some(b) => b,
            None => {
                return 3;
            },
        };
        match self.channels[k].video_broadcasts[b].configure(config) {
            Ok(()) => {},
            Err(_) => {
                return 3;
            },
        }
        proof {
            assert forall|i: int, j: int|
                0 <= i < j < self.channels@.len() implies self.channels@[i].id
                != self.channels@[j].id by {
                assert(self.channels@[i].id == old(self).channels@[i].id);
                assert(self.channels@[j].id == old(self).channels@[j].id);
            }
            assert forall|i: int| 0 <= i < self.channels@.len() implies (
            #[trigger] self.channels@[i]).id != 0 by {
                assert(self.channels@[i].id == old(self).channels@[i].id);
            }
            assert forall|i: int| 0 <= i < self.channels@.len() implies (
            #[trigger] self.channels@[i]).wf() by {
                if i != k as int {
                    assert(self.channels@[i] == old(self).channels@[i]);
                } else {
                    let pre = old(self).channels@[i];
                    let post = self.channels@[i];
                    assert(post.clients@ == pre.clients@);
                    assert(post.audio_broadcasts@ == pre.audio_broadcasts@);
                    assert forall|a: int, b2: int|
                        0 <= a < b2 < post.video_broadcasts@.len() implies !(post.video_broadcasts@[a].mode == post.video_broadcasts@[b2].mode
                            && post.video_broadcasts@[a].source_client_id
                            == post.video_broadcasts@[b2].source_client_id) by {
                        assert(post.video_broadcasts@[a].mode == pre.video_broadcasts@[a].mode
                            && post.video_broadcasts@[a].source_client_id
                            == pre.video_broadcasts@[a].source_client_id);
                        assert(post.video_broadcasts@[b2].mode == pre.video_broadcasts@[b2].mode
                            && post.video_broadcasts@[b2].source_client_id
                            == pre.video_broadcasts@[b2].source_client_id);
                    }
                    assert forall|a: int|
                        0 <= a < post.video_broadcasts@.len() implies (
                    #[trigger] post.video_broadcasts@[a]).wf() by {
                        if a != b as int {
                            assert(post.video_broadcasts@[a] == pre.video_broadcasts@[a]);
                        }
                    }
                }
            }
        }
        0
    }

    /// Reads a running video broadcast's effective configuration.  Status
    /// codes as for configuring; the options are present exactly on
    /// success.
    pub fn get_video_broadcast_config(&self, client_id: u32, btype: u8) -> (r: (u32, Option<
        VideoBroadcastOptions,
    >))
        requires
            self.wf(),
        ensures
            r.0 == 0 || r.0 == 1 || r.0 == 2 || r.0 == 3,
            r.0 == 0 <==> r.1 is Some,
            btype > 1 <==> r.0 == 1,
            btype <= 1 && self.spec_assignment(client_id) is None ==> r.0 == 2,
            btype <= 1 ==> forall|k: int|
                0 <= k < self.channels@.len() && self.spec_assignment(client_id) == Some((
                #[trigger] self.channels@[k]).id) ==> ({
                    let mode = (if btype == 0 {
                        VideoBroadcastMode::Camera
                    } else {
                        VideoBroadcastMode::Screen
                    });
                    &&& r.0 == (if self.channels@[k].spec_has_video_broadcast(client_id, mode) {
                        0u32
                    } else {
                        3u32
                    })
                    &&& (r.0 == 0 ==> exists|b: int|
                        0 <= b < self.channels@[k].video_broadcasts@.len() && (
                        #[trigger] self.channels@[k].video_broadcasts@[b]).source_client_id
                            == client_id && self.channels@[k].video_broadcasts@[b].mode == mode
                            && r.1 == Some(
                            VideoBroadcastOptions {
                                update_mask: 0,
                                bitrate: (match self.channels@[k].video_broadcasts@[b].source.bitrate_limit {
                                    Some(cap) => cap,
                                    None => 0u32,
                                }),
                                keyframe_interval: self.channels@[k].video_broadcasts@[b].auto_keyframe_interval,
                            },
                        ))
                }),
    {
        let broadcast_type = match btype {
            0u8 => VideoBroadcastMode::Camera,
            1u8 => VideoBroadcastMode::Screen,
            _ => {
                return (1, None);
            },
        };
        let channel_id = match self.get_channel_id(client_id) {
            Some(c) => c,
            None => {
                return (2, None);
            },
        };
        let k = match self.find_channel_index(channel_id) {
            Some(k) => k,
            None => {
                return (2, None);
            },
        };
        proof {
            assert forall|k2: int|
                0 <= k2 < self.channels@.len() && self.channels@[k2].id == channel_id implies k2
                == k as int by {
                if k2 != k as int {
                    assert(self.channels@[k2].id != self.channels@[k as int].id);
                }
            }
        }
        match self.channels[k].find_video_broadcast_index(client_id, broadcast_type) {
            Some(b) => {
                let options = self.channels[k].video_broadcasts[b].config();
                proof {
                    assert(self.channels@[k as int].spec_has_video_broadcast(
                        client_id,
                        broadcast_type,
                    ));
                }
                (0, Some(options))
            },
            None => (3, None),
        }
    }

    /// Joins a client to a peer's video broadcast.  Status codes: 0 done,
    /// 1 invalid broadcast kind, 2 unknown client or no channel, 3 no such
    /// broadcast.
    pub fn join_video_broadcast(
        &mut self,
        client_id: u32,
        target_client_id: u32,
        broadcast_type: u8,
        now: u64,
    ) -> (r: u32)
        requires
            old(self).wf(),
            now + crate::broadcast_video::pli_min_request_interval() <= u64::MAX,
        ensures
            final(self).wf(),
            final(self).clients@ == old(self).clients@,
            final(self).client_channel_assignments@ == old(self).client_channel_assignments@,
            final(self).channels@.len() == old(self).channels@.len(),
            r == 0 || r == 1 || r == 2 || r == 3,
            broadcast_type > 1 <==> r == 1,
            broadcast_type > 1 || old(self).spec_assignment(client_id) is None ==> final(self).channels@ == old(self).channels@,
            broadcast_type <= 1 && old(self).spec_assignment(client_id) is None ==> r == 2,
            broadcast_type <= 1 ==> forall|k: int|
                0 <= k < old(self).channels@.len() && old(self).spec_assignment(client_id)
                    == Some((#[trigger] old(self).channels@[k]).id) ==> ({
                    let mode = (if broadcast_type == 0 {
                        VideoBroadcastMode::Camera
                    } else {
                        VideoBroadcastMode::Screen
                    });
                    &&& r == (if !old(self).channels@[k].spec_has_member(client_id) {
                        2u32
                    } else if !old(self).channels@[k].spec_has_video_broadcast(
                        target_client_id,
                        mode,
                    ) {
                        3u32
                    } else {
                        0u32
                    })
                    &&& crate::channel::join_video_effect(
                        old(self).channels@[k],
                        final(self).channels@[k],
                        client_id,
                        target_client_id,
                        mode,
                        now,
                    )
                    &&& forall|j: int|
                        0 <= j < old(self).channels@.len() && j != k ==> final(self).channels@[j]
                            == old(self).channels@[j]
                }),
    {
        let mode = match broadcast_type {
            0u8 => VideoBroadcastMode::Camera,
            1u8 => VideoBroadcastMode::Screen,
            _ => {
                return 1;
            },
        };
        let channel_id = match self.get_channel_id(client_id) {
            Some(c) => c,
            None => {
                return 2;
            },
        };
        let k = match self.find_channel_index(channel_id) {
            Some(k) => k,
            None => {
                return 2;
            },
        };
        proof {
            assert forall|k2: int|
                0 <= k2 < old(self).channels@.len() && old(self).channels@[k2].id
                    == channel_id implies k2 == k as int by {
                if k2 != k as int {
                    assert(old(self).channels@[k2].id != old(self).channels@[k as int].id);
                }
            }
        }
        let result = self.channels[k].join_video_broadcast(client_id, target_client_id, mode, now);
        proof {
            assert forall|i: int, j: int|
                0 <= i < j < self.channels@.len() implies self.channels@[i].id
                != self.channels@[j].id by {
                assert(self.channels@[i].id == old(self).channels@[i].id);
                assert(self.channels@[j].id == old(self).channels@[j].id);
            }
            assert forall|i: int| 0 <= i < self.channels@.len() implies (
            #[trigger] self.channels@[i]).id != 0 by {
                assert(self.channels@[i].id == old(self).channels@[i].id);
            }
        }
        match result {
            VideoBroadcastJoinResult::Success => 0,
            VideoBroadcastJoinResult::InvalidBroadcast => 3,
            VideoBroadcastJoinResult::InvalidClient => 2,
        }
    }

    /// Removes a client from a peer's video broadcast; unknown kinds,
    /// clients or broadcasts change nothing.
    pub fn leave_video_broadcast(&mut self, client_id: u32, target_client_id: u32, broadcast_type: u8)
        requires
            old(self).wf(),
        ensures
            final(self).wf(),
            final(self).clients@ == old(self).clients@,
            final(self).client_channel_assignments@ == old(self).client_channel_assignments@,
            final(self).channels@.len() == old(self).channels@.len(),
            broadcast_type > 1 || old(self).spec_assignment(client_id) is None ==> final(self).channels@ == old(self).channels@,
            broadcast_type <= 1 ==> forall|k: int|
                0 <= k < old(self).channels@.len() && old(self).spec_assignment(client_id)
                    == Some((#[trigger] old(self).channels@[k]).id) ==> ({
                    let mode = (if broadcast_type == 0 {
                        VideoBroadcastMode::Camera
                    } else {
                        VideoBroadcastMode::Screen
                    });
                    &&& crate::channel::leave_video_effect(
                        old(self).channels@[k],
                        final(self).channels@[k],
                        client_id,
                        target_client_id,
                        mode,
                    )
                    &&& forall|j: int|
                        0 <= j < old(self).channels@.len() && j != k ==> final(self).channels@[j]
                            == old(self).channels@[j]
                }),
    {
        let mode = match broadcast_type {
            0u8 => VideoBroadcastMode::Camera,
            1u8 => VideoBroadcastMode::Screen,
            _ => {
                return ;
            },
        };
        let channel_id = match self.get_channel_id(client_id) {
            Some(c) => c,
            None => {
                return ;
            },
        };
        let k = match self.find_channel_index(channel_id) {
            Some(k) => k,
            None => {
                return ;
            },
        };
        proof {
            assert forall|k2: int|
                0 <= k2 < old(self).channels@.len() && old(self).channels@[k2].id
                    == channel_id implies k2 == k as int by {
                if k2 != k as int {
                    assert(old(self).channels@[k2].id != old(self).channels@[k as int].id);
                }
            }
        }
        self.channels[k].leave_video_broadcast(client_id, target_client_id, mode);
        proof {
            assert forall|i: int, j: int|
                0 <= i < j < self.channels@.len() implies self.channels@[i].id
                != self.channels@[j].id by {
                assert(self.channels@[i].id == old(self).channels@[i].id);
                assert(self.channels@[j].id == old(self).channels@[j].id);
            }
            assert forall|i: int| 0 <= i < self.channels@.len() implies (
            #[trigger] self.channels@[i]).id != 0 by {
                assert(self.channels@[i].id == old(self).channels@[i].id);
            }
        }
    }

    /// Drops a client's whisper session, if any.
    pub fn whisper_reset(&mut self, client_id: u32)
        requires
            old(self).wf(),
        ensures
            final(self).wf(),
            final(self).channels@ == old(self).channels@,
            final(self).client_channel_assignments@ == old(self).client_channel_assignments@,
            final(self).clients@.len() == old(self).clients@.len(),
            forall|i: int|
                0 <= i < old(self).clients@.len() ==> (if old(self).clients@[i].client_id
                    == client_id {
                    (#[trigger] final(self).clients@[i]).whisper_session is None && final(self).clients@[i].client_id == old(self).clients@[i].client_id && final(self).clients@[i].client_data == old(self).clients@[i].client_data && final(self).clients@[i].rtc_connection == old(self).clients@[i].rtc_connection && final(self).clients@[i].native_connection == old(self).clients@[i].native_connection && final(self).clients@[i].whisper_session_id == old(self).clients@[i].whisper_session_id
                } else {
                    final(self).clients@[i] == old(self).clients@[i]
                }),
    {
        match self.find_client_index(client_id) {
            Some(i) => {
                self.clients[i].reset_whisper_session();
                proof {
                    assert forall|a: int, b: int|
                        0 <= a < b < self.clients@.len() implies self.clients@[a].client_id
                        != self.clients@[b].client_id by {
                        assert(self.clients@[a].client_id == old(self).clients@[a].client_id);
                        assert(self.clients@[b].client_id == old(self).clients@[b].client_id);
                    }
                    assert forall|a: int| 0 <= a < self.clients@.len() implies (
                    #[trigger] self.clients@[a]).wf() by {
                        if a != i as int {
                            assert(self.clients@[a] == old(self).clients@[a]);
                        }
                    }
                }
            },
            None => {},
        }
    }

    /// What a client's whisper session looks like after a successful
    /// configuration against the pre-state `pre`: the right stream, a
    /// never-zero id (kept when the session was reused), and target list
    /// and sink membership rewritten to the new list — targets of the old
    /// list stay, every other listed id that resolves to a live client is
    /// added, dropped targets are unregistered as sinks, and a sink exists
    /// for exactly the listed ids that either stayed attached or resolved
    /// to a client able to receive audio.
    pub open spec fn whisper_outcome(
        pre: Server,
        s: crate::whisper::WhisperSession,
        old_session: Option<crate::whisper::WhisperSession>,
        client_id: u32,
        source_stream: u32,
        client_ids: Seq<u32>,
    ) -> bool {
        let old_t = (match old_session {
            Some(s0) => if s0.stream_id == source_stream {
                s0.targets@
            } else {
                Seq::<u32>::empty()
            },
            None => Seq::<u32>::empty(),
        });
        &&& s.stream_id == source_stream
        &&& s.session_id != 0
        &&& s.broadcast.source_client_id == client_id
        &&& (match old_session {
            Some(s0) => s0.stream_id == source_stream ==> s.session_id == s0.session_id,
            None => true,
        })
        &&& forall|t: u32|
            #[trigger] s.targets@.contains(t) == (client_ids.contains(t) && (old_t.contains(t)
                || pre.spec_has_client(t)))
        &&& forall|id: u32|
            #[trigger] s.broadcast.spec_contains_client(id) == ((client_ids.contains(id)
                && old_t.contains(id) && (match old_session {
                Some(s0) => s0.stream_id == source_stream
                    && s0.broadcast.spec_contains_client(id),
                None => false,
            })) || (client_ids.contains(id) && !old_t.contains(id) && (exists|x: int|
                0 <= x < pre.clients@.len() && (#[trigger] pre.clients@[x]).client_id == id && (
                pre.clients@[x].rtc_connection || pre.clients@[x].native_connection))))
    }

    /// Configures (creating or reusing) a client's whisper session: the
    /// target list replaces the previous one, removed targets are
    /// unregistered at once, and every still-missing target that resolves
    /// to a live client is registered as a listener — including the
    /// whispering client itself when self-targeted.  Ids that resolve to no
    /// client are skipped without an error.
    #[verifier::rlimit(80)]
    pub fn whisper_configure(
        &mut self,
        client_id: u32,
        source_stream: u32,
        client_ids: &[u32],
        now: u64,
    ) -> (r: Result<(), WhisperConfigureError>)
        requires
            old(self).wf(),
        ensures
            final(self).wf(),
            final(self).channels@ == old(self).channels@,
            final(self).client_channel_assignments@ == old(self).client_channel_assignments@,
            final(self).clients@.len() == old(self).clients@.len(),
            !old(self).spec_has_client(client_id) <==> r == Err::<(), WhisperConfigureError>(
                WhisperConfigureError::InvalidClient,
            ),
            r is Ok <==> (exists|i: int|
                0 <= i < old(self).clients@.len() && (#[trigger] old(self).clients@[i]).client_id
                    == client_id && ((old(self).clients@[i].whisper_session matches Some(s0)
                    && s0.stream_id == source_stream) || old(self).clients@[i].rtc_connection
                    || old(self).clients@[i].native_connection)),
            r is Err ==> final(self).clients@ == old(self).clients@,
            forall|i: int|
                0 <= i < old(self).clients@.len() && old(self).clients@[i].client_id != client_id
                    ==> final(self).clients@[i] == old(self).clients@[i],
            r is Ok ==> forall|i: int|
                0 <= i < old(self).clients@.len() && (#[trigger] old(self).clients@[i]).client_id
                    == client_id ==> final(self).clients@[i].client_id == old(self).clients@[i].client_id && final(self).clients@[i].client_data == old(self).clients@[i].client_data && final(self).clients@[i].rtc_connection == old(self).clients@[i].rtc_connection && final(self).clients@[i].native_connection == old(self).clients@[i].native_connection && (final(self).clients@[i].whisper_session matches Some(s)
                    && Self::whisper_outcome(
                    *old(self),
                    s,
                    old(self).clients@[i].whisper_session,
                    client_id,
                    source_stream,
                    client_ids@,
                )),
    {
        let ci = match self.find_client_index(client_id) {
            Some(i) => i,
            None => {
                return Err(WhisperConfigureError::InvalidClient);
            },
        };
        proof {
            assert forall|c2: int|
                0 <= c2 < old(self).clients@.len() && old(self).clients@[c2].client_id
                    == client_id implies c2 == ci as int by {
                if c2 != ci as int {
                    assert(old(self).clients@[c2].client_id != old(self).clients@[ci as int].client_id);
                }
            }
        }

        // Resolve every candidate target up front; the session borrow below
        // must not overlap these lookups.
        let mut resolved: Vec<Option<crate::client::ClientInfo>> = Vec::new();
        let mut t: usize = 0;
        while t < client_ids.len()
            invariant
                t <= client_ids@.len(),
                resolved@.len() == t,
                self == old(self),
                forall|w: int|
                    0 <= w < t ==> (match #[trigger] resolved@[w] {
                        Some(info) => exists|x: int|
                            0 <= x < old(self).clients@.len() && (#[trigger] old(self).clients@[x]).client_id == client_ids@[w] && info == old(self).clients@[x].spec_info(),
                        None => !old(self).spec_has_client(client_ids@[w]),
                    }),
            decreases client_ids@.len() - t,
        {
            let target_id = client_ids[t];
            match self.find_client(target_id) {
                Some(c) => {
                    let info = c.info();
                    proof {
                        let x = choose|x: int|
                            0 <= x < self.clients@.len() && *c == self.clients@[x];
                        assert(self.clients@[x].client_id == target_id);
                        assert(info == self.clients@[x].spec_info());
                    }
                    resolved.push(Some(info));
                },
                None => {
                    resolved.push(None);
                },
            }
            t = t + 1;
        }

        // Allocate a session id only when a new session is needed.
        let needs_new = match &self.clients[ci].whisper_session {
            Some(session) => session.stream_id != source_stream,
            None => true,
        };
        let mut new_session_id: u32 = 1;
        if needs_new {
            new_session_id = self.whisper_session_id_index;
            self.whisper_session_id_index = self.whisper_session_id_index.wrapping_add(1);
            if new_session_id == 0 {
                new_session_id = self.whisper_session_id_index;
                self.whisper_session_id_index = self.whisper_session_id_index.wrapping_add(1);
            }
        }

        let created = self.clients[ci].get_create_whisper_session(
            source_stream,
            new_session_id,
            now,
        );
        proof {
            assert forall|a: int, b: int|
                0 <= a < b < self.clients@.len() implies self.clients@[a].client_id
                != self.clients@[b].client_id by {
                assert(self.clients@[a].client_id == old(self).clients@[a].client_id);
                assert(self.clients@[b].client_id == old(self).clients@[b].client_id);
            }
            assert forall|a: int| 0 <= a < self.clients@.len() implies (
            #[trigger] self.clients@[a]).wf() by {
                if a != ci as int {
                    assert(self.clients@[a] == old(self).clients@[a]);
                }
            }
        }
        if !created {
            return Err(WhisperConfigureError::ClientHasNoSource);
        }
        let ghost clients_mid = self.clients@;
        let ghost old_session_opt = old(self).clients@[ci as int].whisper_session;
        let ghost old_t: Seq<u32> = (match old_session_opt {
            Some(s0) => if s0.stream_id == source_stream {
                s0.targets@
            } else {
                Seq::<u32>::empty()
            },
            None => Seq::<u32>::empty(),
        });

        let mut taken: Option<crate::whisper::WhisperSession> = None;
        core::mem::swap(&mut taken, &mut self.clients[ci].whisper_session);
        let mut session = match taken {
            Some(s) => s,
            None => {
                proof {
                    assert(false);
                }
                return Err(WhisperConfigureError::ClientHasNoSource);
            },
        };
        let ghost session0 = session;
        proof {
            assert(session0.targets@ =~= old_t);
        }
        let to_add = session.update_target_clients(client_ids);
        let ghost session1 = session;
        let mut a: usize = 0;
        proof {
            assert(to_add@.subrange(0, 0) =~= Seq::<u32>::empty());
        }
        while a < to_add.len()
            invariant
                a <= to_add@.len(),
                old(self).wf(),
                session.wf(),
                session.stream_id == session0.stream_id,
                session.session_id == session0.session_id,
                session.broadcast.source_client_id == session0.broadcast.source_client_id,
                session.broadcast.source_client_data == session0.broadcast.source_client_data,
                resolved@.len() == client_ids@.len(),
                forall|w: int|
                    0 <= w < client_ids@.len() ==> (match #[trigger] resolved@[w] {
                        Some(info) => exists|x: int|
                            0 <= x < old(self).clients@.len() && (#[trigger] old(self).clients@[x]).client_id == client_ids@[w] && info == old(self).clients@[x].spec_info(),
                        None => !old(self).spec_has_client(client_ids@[w]),
                    }),
                forall|x: u32|
                    #[trigger] to_add@.contains(x) ==> client_ids@.contains(x),
                forall|t2: u32|
                    #[trigger] session.targets@.contains(t2) == (session1.targets@.contains(t2)
                        || (to_add@.subrange(0, a as int).contains(t2) && old(self).spec_has_client(t2))),
                forall|id: u32|
                    #[trigger] session.broadcast.spec_contains_client(id) == (
                    session1.broadcast.spec_contains_client(id) || (to_add@.subrange(
                        0,
                        a as int,
                    ).contains(id) && (exists|x: int|
                        0 <= x < old(self).clients@.len() && (#[trigger] old(self).clients@[x]).client_id == id && (old(self).clients@[x].rtc_connection || old(self).clients@[x].native_connection)))),
            decreases to_add@.len() - a,
        {
            let ghost prefix = to_add@.subrange(0, a as int);
            let ghost prefix1 = to_add@.subrange(0, a + 1);
            let add_id = to_add[a];
            proof {
                assert(to_add@.contains(add_id));
                assert(prefix1.drop_last() =~= prefix);
                assert(prefix.push(add_id) =~= prefix1);
                crate::lemma_push_mem(prefix, add_id);
            }
            let mut w: usize = 0;
            let mut found: Option<crate::client::ClientInfo> = None;
            while w < client_ids.len()
                invariant_except_break
                    w <= client_ids@.len(),
                    found is None,
                    forall|j: int| 0 <= j < w ==> client_ids@[j] != add_id,
                invariant
                    resolved@.len() == client_ids@.len(),
                    client_ids@.contains(add_id),
                    old(self).wf(),
                    forall|w2: int|
                        0 <= w2 < client_ids@.len() ==> (match #[trigger] resolved@[w2] {
                            Some(info) => exists|x: int|
                                0 <= x < old(self).clients@.len() && (#[trigger] old(self).clients@[x]).client_id == client_ids@[w2] && info == old(self).clients@[x].spec_info(),
                            None => !old(self).spec_has_client(client_ids@[w2]),
                        }),
                ensures
                    (match found {
                        Some(info) => exists|x: int|
                            0 <= x < old(self).clients@.len() && (#[trigger] old(self).clients@[x]).client_id == add_id && info == old(self).clients@[x].spec_info(),
                        None => !old(self).spec_has_client(add_id),
                    }),
                decreases client_ids@.len() - w,
            {
                if client_ids[w] == add_id {
                    found = resolved[w];
                    break ;
                }
                w = w + 1;
            }
            let ghost pre_session = session;
            match found {
                Some(info) => {
                    session.register_client(&info);
                    proof {
                        assert(info.client_id == add_id);
                        crate::lemma_push_mem(pre_session.targets@, add_id);
                        let x0 = choose|x: int|
                            0 <= x < old(self).clients@.len() && (#[trigger] old(self).clients@[x]).client_id == add_id && info == old(self).clients@[x].spec_info();
                        assert(old(self).clients@[x0].client_id == add_id);
                        assert(old(self).spec_has_client(add_id));
                        assert(session.targets@ == pre_session.targets@.push(add_id));
                        assert forall|t2: u32|
                            #[trigger] session.targets@.contains(t2) == (
                            session1.targets@.contains(t2) || (prefix1.contains(t2) && old(self).spec_has_client(t2))) by {
                            assert(session.targets@.contains(t2) == (
                            pre_session.targets@.contains(t2) || t2 == add_id));
                            assert(prefix1.contains(t2) == (prefix.contains(t2) || t2 == add_id));
                        }
                        assert forall|id: u32|
                            #[trigger] session.broadcast.spec_contains_client(id) == (
                            session1.broadcast.spec_contains_client(id) || (prefix1.contains(id)
                                && (exists|x: int|
                                0 <= x < old(self).clients@.len() && (#[trigger] old(self).clients@[x]).client_id == id && (old(self).clients@[x].rtc_connection || old(self).clients@[x].native_connection)))) by {
                            assert(pre_session.broadcast.spec_contains_client(id) == (
                            session1.broadcast.spec_contains_client(id) || (prefix.contains(id)
                                && (exists|x: int|
                                0 <= x < old(self).clients@.len() && (#[trigger] old(self).clients@[x]).client_id == id && (old(self).clients@[x].rtc_connection || old(self).clients@[x].native_connection)))));
                            assert(prefix1.contains(id) == (prefix.contains(id) || id
                                == add_id));
                            if info.can_send_audio() {
                                assert(old(self).clients@[x0].rtc_connection || old(self).clients@[x0].native_connection);
                            }
                            if pre_session.broadcast.spec_contains_client(info.client_id)
                                || !info.can_send_audio() {
                                assert(session.broadcast == pre_session.broadcast);
                                if id == add_id && !info.can_send_audio() {
                                    assert forall|x: int|
                                        0 <= x < old(self).clients@.len() && (
                                        #[trigger] old(self).clients@[x]).client_id == id implies !(old(self).clients@[x].rtc_connection || old(self).clients@[x].native_connection) by {
                                        assert(x == x0);
                                    }
                                }
                            } else {
                                assert(session.broadcast.sender@
                                    == pre_session.broadcast.sender@.push(
                                    crate::broadcast_audio::AudioSinkAttachment {
                                        owner_id: info.client_id,
                                        owner_data: info.client_data,
                                        closed: false,
                                    },
                                ));
                                lemma_sink_push_mem(
                                    pre_session.broadcast.sender@,
                                    crate::broadcast_audio::AudioSinkAttachment {
                                        owner_id: info.client_id,
                                        owner_data: info.client_data,
                                        closed: false,
                                    },
                                    id,
                                );
                                if id == add_id {
                                    assert(old(self).clients@[x0].rtc_connection || old(self).clients@[x0].native_connection);
                                }
                            }
                        }
                    }
                },
                None => {
                    proof {
                        assert forall|t2: u32|
                            #[trigger] session.targets@.contains(t2) == (
                            session1.targets@.contains(t2) || (prefix1.contains(t2) && old(self).spec_has_client(t2))) by {}
                        assert forall|id: u32|
                            #[trigger] session.broadcast.spec_contains_client(id) == (
                            session1.broadcast.spec_contains_client(id) || (prefix1.contains(id)
                                && (exists|x: int|
                                0 <= x < old(self).clients@.len() && (#[trigger] old(self).clients@[x]).client_id == id && (old(self).clients@[x].rtc_connection || old(self).clients@[x].native_connection)))) by {
                            if id == add_id {
                                assert(!old(self).spec_has_client(id));
                            }
                        }
                    }
                },
            }
            a = a + 1;
        }
        self.clients[ci].whisper_session = Some(session);
        proof {
            assert forall|a2: int, b: int|
                0 <= a2 < b < self.clients@.len() implies self.clients@[a2].client_id
                != self.clients@[b].client_id by {
                assert(self.clients@[a2].client_id == clients_mid[a2].client_id);
                assert(self.clients@[b].client_id == clients_mid[b].client_id);
            }
            assert forall|a2: int| 0 <= a2 < self.clients@.len() implies (
            #[trigger] self.clients@[a2]).wf() by {
                if a2 != ci as int {
                    assert(self.clients@[a2] == clients_mid[a2]);
                }
            }
            assert(self.clients@[ci as int].client_id == client_id);

            // The session now satisfies the configured outcome.
            assert(to_add@.subrange(0, to_add@.len() as int) =~= to_add@);
            let keep_clo = |t2: u32| client_ids@.contains(t2);
            crate::lemma_filter_mem(session0.targets@, keep_clo);
            assert(session1.targets@ == session0.targets@.filter(keep_clo));
            assert forall|t2: u32|
                #[trigger] session.targets@.contains(t2) == (client_ids@.contains(t2) && (
                old_t.contains(t2) || old(self).spec_has_client(t2))) by {
                assert(session1.targets@.contains(t2) == (old_t.contains(t2)
                    && client_ids@.contains(t2)));
                if to_add@.contains(t2) {
                    assert(client_ids@.contains(t2));
                }
                if client_ids@.contains(t2) && !old_t.contains(t2) && old(self).spec_has_client(
                    t2,
                ) {
                    assert(to_add@.contains(t2));
                }
            }
            assert forall|id: u32|
                #[trigger] session.broadcast.spec_contains_client(id) == ((client_ids@.contains(
                    id,
                ) && old_t.contains(id) && (match old_session_opt {
                    Some(s0) => s0.stream_id == source_stream
                        && s0.broadcast.spec_contains_client(id),
                    None => false,
                })) || (client_ids@.contains(id) && !old_t.contains(id) && (exists|x: int|
                    0 <= x < old(self).clients@.len() && (#[trigger] old(self).clients@[x]).client_id == id && (old(self).clients@[x].rtc_connection || old(self).clients@[x].native_connection)))) by {
                if session1.broadcast.spec_contains_client(id) {
                    assert(session0.broadcast.spec_contains_client(id));
                    assert(session0.targets@.contains(id));
                    assert(client_ids@.contains(id));
                }
                if to_add@.contains(id) {
                    assert(client_ids@.contains(id));
                }
                if client_ids@.contains(id) && !old_t.contains(id) && (exists|x: int|
                    0 <= x < old(self).clients@.len() && (#[trigger] old(self).clients@[x]).client_id == id && (old(self).clients@[x].rtc_connection || old(self).clients@[x].native_connection)) {
                    assert(old(self).spec_has_client(id)) by {
                        let x = choose|x: int|
                            0 <= x < old(self).clients@.len() && (#[trigger] old(self).clients@[x]).client_id == id && (old(self).clients@[x].rtc_connection || old(self).clients@[x].native_connection);
                        assert(old(self).clients@[x].client_id == id);
                    }
                    assert(!session1.targets@.contains(id));
                    assert(to_add@.contains(id));
                }
            }
        }
        Ok(())
    }
}


impl Server {
    /// One scheduler pass over a client's channel-audio broadcast: drains
    /// the source and, when it ended for good, tears the broadcast down —
    /// the reaction the channel owes to a finished source.  Returns whether
    /// a pass ran and whether it ended the broadcast.
    #[verifier::rlimit(80)]
    pub fn poll_audio_broadcast(&mut self, client_id: u32, now: u64) -> (r: Option<bool>)
        requires
            old(self).wf(),
        ensures
            final(self).wf(),
            final(self).clients@ == old(self).clients@,
            final(self).client_channel_assignments@ == old(self).client_channel_assignments@,
            final(self).channels@.len() == old(self).channels@.len(),
            r is None ==> final(self).channels@ == old(self).channels@,
            old(self).spec_assignment(client_id) is None ==> r is None,
            forall|k: int|
                0 <= k < old(self).channels@.len() && old(self).spec_assignment(client_id)
                    == Some((#[trigger] old(self).channels@[k]).id) ==> (if !old(self).channels@[k].spec_has_audio_broadcast(client_id) {
                    r is None
                } else {
                    exists|b: int|
                        0 <= b < old(self).channels@[k].audio_broadcasts@.len() && (
                        #[trigger] old(self).channels@[k].audio_broadcasts@[b]).source_client_id
                            == client_id && r == Some(
                            old(self).channels@[k].audio_broadcasts@[b].source.ended,
                        ) && (forall|j: int|
                            0 <= j < old(self).channels@.len() && j != k ==> final(self).channels@[j] == old(self).channels@[j]) && final(self).channels@[k].id
                            == old(self).channels@[k].id && final(self).channels@[k].clients@
                            == old(self).channels@[k].clients@ && final(self).channels@[k].video_broadcasts@ == old(self).channels@[k].video_broadcasts@ && final(self).channels@[k].video_broadcast_update_pending == old(self).channels@[k].video_broadcast_update_pending && (if old(self).channels@[k].audio_broadcasts@[b].source.ended {
                            final(self).channels@[k].audio_broadcasts@ == old(self).channels@[k].audio_broadcasts@.remove(b)
                        } else {
                            final(self).channels@[k].audio_broadcasts@.len() == old(self).channels@[k].audio_broadcasts@.len()
                                && crate::broadcast_audio::audio_poll_effect(
                                old(self).channels@[k].audio_broadcasts@[b],
                                final(self).channels@[k].audio_broadcasts@[b],
                                now,
                            ) && (forall|j: int|
                                0 <= j < old(self).channels@[k].audio_broadcasts@.len() && j != b
                                    ==> final(self).channels@[k].audio_broadcasts@[j] == old(self).channels@[k].audio_broadcasts@[j])
                        })
                }),
    {
        let channel_id = match self.get_channel_id(client_id) {
            Some(c) => c,
            None => {
                return None;
            },
        };
        let k = match self.find_channel_index(channel_id) {
            Some(k) => k,
            None => {
                return None;
            },
        };
        proof {
            assert forall|k2: int|
                0 <= k2 < old(self).channels@.len() && old(self).channels@[k2].id
                    == channel_id implies k2 == k as int by {
                if k2 != k as int {
                    assert(old(self).channels@[k2].id != old(self).channels@[k as int].id);
                }
            }
        }
        let b = match self.channels[k].find_audio_broadcast_index(client_id) {
            Some(b) => b,
            None => {
                return None;
            },
        };
        let ended = self.channels[k].audio_broadcasts[b].poll_source(now);
        let ghost mid = *self;
        proof {
            assert forall|i: int| 0 <= i < self.channels@.len() implies (
            #[trigger] self.channels@[i]).wf() && self.channels@[i].id == old(self).channels@[i].id && self.channels@[i].id != 0 by {
                if i != k as int {
                    assert(self.channels@[i] == old(self).channels@[i]);
                } else {
                    let pre = old(self).channels@[i];
                    let post = self.channels@[i];
                    assert(post.clients@ == pre.clients@);
                    assert(post.video_broadcasts@ == pre.video_broadcasts@);
                    assert forall|x: int, y: int|
                        0 <= x < y < post.audio_broadcasts@.len() implies post.audio_broadcasts@[x].source_client_id != post.audio_broadcasts@[y].source_client_id by {
                        assert(post.audio_broadcasts@[x].source_client_id
                            == pre.audio_broadcasts@[x].source_client_id);
                        assert(post.audio_broadcasts@[y].source_client_id
                            == pre.audio_broadcasts@[y].source_client_id);
                    }
                    assert forall|x: int|
                        0 <= x < post.audio_broadcasts@.len() implies (
                    #[trigger] post.audio_broadcasts@[x]).wf() && post.audio_broadcasts@[x].mode
                        == crate::broadcast_audio::AudioBroadcastMode::Channel by {
                        if x != b as int {
                            assert(post.audio_broadcasts@[x] == pre.audio_broadcasts@[x]);
                        } else {
                            assert(post.audio_broadcasts@[x].sender@
                                == pre.audio_broadcasts@[x].sender@);
                        }
                    }
                }
            }
            assert forall|i: int, j: int|
                0 <= i < j < self.channels@.len() implies self.channels@[i].id
                != self.channels@[j].id by {
                assert(self.channels@[i].id == old(self).channels@[i].id);
                assert(self.channels@[j].id == old(self).channels@[j].id);
            }
        }
        if ended {
            self.channels[k].shutdown_broadcast_audio(client_id);
            proof {
                assert forall|i: int, j: int|
                    0 <= i < j < self.channels@.len() implies self.channels@[i].id
                    != self.channels@[j].id by {
                    assert(self.channels@[i].id == old(self).channels@[i].id);
                    assert(self.channels@[j].id == old(self).channels@[j].id);
                }
                assert forall|i: int| 0 <= i < self.channels@.len() implies (
                #[trigger] self.channels@[i]).id != 0 by {
                    assert(self.channels@[i].id == old(self).channels@[i].id);
                }
                let ki = k as int;
                let bi = b as int;
                let pre_ch = old(self).channels@[ki];
                let mid_ch = mid.channels@[ki];
                let post_ch = self.channels@[ki];
                let k0 = choose|k0: int|
                    0 <= k0 < mid_ch.audio_broadcasts@.len()
                        && mid_ch.audio_broadcasts@[k0].source_client_id == client_id
                        && post_ch.audio_broadcasts@ == mid_ch.audio_broadcasts@.remove(k0);
                assert forall|x: int|
                    0 <= x < mid_ch.audio_broadcasts@.len() && x != bi implies mid_ch.audio_broadcasts@[x].source_client_id != client_id by {
                    assert(mid_ch.audio_broadcasts@[x] == pre_ch.audio_broadcasts@[x]);
                    assert(pre_ch.audio_broadcasts@[bi].source_client_id == client_id);
                }
                assert(k0 == bi);
                assert(post_ch.audio_broadcasts@ =~= pre_ch.audio_broadcasts@.remove(bi));
            }
            Some(true)
        } else {
            Some(false)
        }
    }

    /// One scheduler pass over a video broadcast of a client: drains the
    /// source and, when it ended for good, tears the broadcast down.
    /// Returns whether a pass ran and whether it ended the broadcast.
    #[verifier::rlimit(80)]
    pub fn poll_video_broadcast(&mut self, client_id: u32, btype: u8, now: u64) -> (r: Option<bool>)
        requires
            old(self).wf(),
            now + crate::broadcast_video::pli_min_request_interval() <= u64::MAX,
        ensures
            final(self).wf(),
            final(self).clients@ == old(self).clients@,
            final(self).client_channel_assignments@ == old(self).client_channel_assignments@,
            final(self).channels@.len() == old(self).channels@.len(),
            r is None ==> final(self).channels@ == old(self).channels@,
            btype > 1 ==> r is None,
            old(self).spec_assignment(client_id) is None ==> r is None,
            btype <= 1 ==> forall|k: int|
                0 <= k < old(self).channels@.len() && old(self).spec_assignment(client_id)
                    == Some((#[trigger] old(self).channels@[k]).id) ==> ({
                    let mode = (if btype == 0 {
                        VideoBroadcastMode::Camera
                    } else {
                        VideoBroadcastMode::Screen
                    });
                    if !old(self).channels@[k].spec_has_video_broadcast(client_id, mode) {
                        r is None
                    } else {
                        exists|b: int|
                            0 <= b < old(self).channels@[k].video_broadcasts@.len() && (
                            #[trigger] old(self).channels@[k].video_broadcasts@[b]).source_client_id == client_id && old(self).channels@[k].video_broadcasts@[b].mode
                                == mode && r == Some(
                                crate::broadcast_video::video_pass_ended(
                                    old(self).channels@[k].video_broadcasts@[b].source.events@,
                                ),
                            ) && (forall|j: int|
                                0 <= j < old(self).channels@.len() && j != k ==> final(self).channels@[j] == old(self).channels@[j]) && final(self).channels@[k].id
                                == old(self).channels@[k].id && final(self).channels@[k].clients@
                                == old(self).channels@[k].clients@ && final(self).channels@[k].audio_broadcasts@ == old(self).channels@[k].audio_broadcasts@ && (if crate::broadcast_video::video_pass_ended(
                                old(self).channels@[k].video_broadcasts@[b].source.events@,
                            ) {
                                final(self).channels@[k].video_broadcasts@ == old(self).channels@[k].video_broadcasts@.remove(b) && final(self).channels@[k].video_broadcast_update_pending
                            } else {
                                final(self).channels@[k].video_broadcasts@.len() == old(self).channels@[k].video_broadcasts@.len() && final(self).channels@[k].video_broadcast_update_pending == old(self).channels@[k].video_broadcast_update_pending
                                    && crate::broadcast_video::video_poll_effect(
                                    old(self).channels@[k].video_broadcasts@[b],
                                    final(self).channels@[k].video_broadcasts@[b],
                                    now,
                                ) && (forall|j: int|
                                    0 <= j < old(self).channels@[k].video_broadcasts@.len() && j
                                        != b ==> final(self).channels@[k].video_broadcasts@[j]
                                        == old(self).channels@[k].video_broadcasts@[j])
                            })
                    }
                }),
    {
        let mode = match btype {
            0u8 => VideoBroadcastMode::Camera,
            1u8 => VideoBroadcastMode::Screen,
            _ => {
                return None;
            },
        };
        let channel_id = match self.get_channel_id(client_id) {
            Some(c) => c,
            None => {
                return None;
            },
        };
        let k = match self.find_channel_index(channel_id) {
            Some(k) => k,
            None => {
                return None;
            },
        };
        proof {
            assert forall|k2: int|
                0 <= k2 < old(self).channels@.len() && old(self).channels@[k2].id
                    == channel_id implies k2 == k as int by {
                if k2 != k as int {
                    assert(old(self).channels@[k2].id != old(self).channels@[k as int].id);
                }
            }
        }
        let b = match self.channels[k].find_video_broadcast_index(client_id, mode) {
            Some(b) => b,
            None => {
                return None;
            },
        };
        let ended = self.channels[k].video_broadcasts[b].poll_source(now);
        let ghost mid = *self;
        proof {
            assert forall|i: int| 0 <= i < self.channels@.len() implies (
            #[trigger] self.channels@[i]).wf() && self.channels@[i].id == old(self).channels@[i].id && self.channels@[i].id != 0 by {
                if i != k as int {
                    assert(self.channels@[i] == old(self).channels@[i]);
                } else {
                    let pre = old(self).channels@[i];
                    let post = self.channels@[i];
                    assert(post.clients@ == pre.clients@);
                    assert(post.audio_broadcasts@ == pre.audio_broadcasts@);
                    assert forall|x: int, y: int|
                        0 <= x < y < post.video_broadcasts@.len() implies !(post.video_broadcasts@[x].mode == post.video_broadcasts@[y].mode
                            && post.video_broadcasts@[x].source_client_id
                            == post.video_broadcasts@[y].source_client_id) by {
                        assert(post.video_broadcasts@[x].mode == pre.video_broadcasts@[x].mode
                            && post.video_broadcasts@[x].source_client_id
                            == pre.video_broadcasts@[x].source_client_id);
                        assert(post.video_broadcasts@[y].mode == pre.video_broadcasts@[y].mode
                            && post.video_broadcasts@[y].source_client_id
                            == pre.video_broadcasts@[y].source_client_id);
                    }
                    assert forall|x: int|
                        0 <= x < post.video_broadcasts@.len() implies (
                    #[trigger] post.video_broadcasts@[x]).wf() by {
                        if x != b as int {
                            assert(post.video_broadcasts@[x] == pre.video_broadcasts@[x]);
                        } else {
                            assert(post.video_broadcasts@[x].sender@
                                == pre.video_broadcasts@[x].sender@);
                        }
                    }
                }
            }
            assert forall|i: int, j: int|
                0 <= i < j < self.channels@.len() implies self.channels@[i].id
                != self.channels@[j].id by {
                assert(self.channels@[i].id == old(self).channels@[i].id);
                assert(self.channels@[j].id == old(self).channels@[j].id);
            }
        }
        if ended {
            self.channels[k].shutdown_broadcast_video(client_id, mode);
            proof {
                assert forall|i: int, j: int|
                    0 <= i < j < self.channels@.len() implies self.channels@[i].id
                    != self.channels@[j].id by {
                    assert(self.channels@[i].id == old(self).channels@[i].id);
                    assert(self.channels@[j].id == old(self).channels@[j].id);
                }
                assert forall|i: int| 0 <= i < self.channels@.len() implies (
                #[trigger] self.channels@[i]).id != 0 by {
                    assert(self.channels@[i].id == old(self).channels@[i].id);
                }
                let ki = k as int;
                let bi = b as int;
                let pre_ch = old(self).channels@[ki];
                let mid_ch = mid.channels@[ki];
                let post_ch = self.channels@[ki];
                let k0 = choose|k0: int|
                    0 <= k0 < mid_ch.video_broadcasts@.len()
                        && mid_ch.video_broadcasts@[k0].source_client_id == client_id
                        && mid_ch.video_broadcasts@[k0].mode == mode && post_ch.video_broadcasts@
                        == mid_ch.video_broadcasts@.remove(k0);
                assert forall|x: int|
                    0 <= x < mid_ch.video_broadcasts@.len() && x != bi implies !(mid_ch.video_broadcasts@[x].source_client_id == client_id
                        && mid_ch.video_broadcasts@[x].mode == mode) by {
                    assert(mid_ch.video_broadcasts@[x] == pre_ch.video_broadcasts@[x]);
                    assert(pre_ch.video_broadcasts@[bi].source_client_id == client_id
                        && pre_ch.video_broadcasts@[bi].mode == mode);
                }
                assert(k0 == bi);
                assert(post_ch.video_broadcasts@ =~= pre_ch.video_broadcasts@.remove(bi));
            }
            Some(true)
        } else {
            Some(false)
        }
    }
}


impl Server {
    /// Marks a client's RTC transport as established and refreshes the
    /// membership record of the channel the client sits in, so broadcasts
    /// see the new capability.  Reports `false` for an unknown client or
    /// one whose RTC transport already was established.
    pub fn initialize_rtc_connection(&mut self, client_id: u32) -> (r: bool)
        requires
            old(self).wf(),
        ensures
            final(self).wf(),
            final(self).client_channel_assignments@ == old(self).client_channel_assignments@,
            r ==> old(self).spec_has_client(client_id),
            !old(self).spec_has_client(client_id) ==> !r && final(self).clients@ == old(self).clients@ && final(self).channels@ == old(self).channels@,
            final(self).clients@.len() == old(self).clients@.len(),
            final(self).channels@.len() == old(self).channels@.len(),
            forall|i: int|
                0 <= i < old(self).clients@.len() ==> (if old(self).clients@[i].client_id
                    == client_id {
                    r == !old(self).clients@[i].rtc_connection && (#[trigger] final(self).clients@[i]).rtc_connection && final(self).clients@[i].client_id == old(self).clients@[i].client_id && final(self).clients@[i].client_data == old(self).clients@[i].client_data && final(self).clients@[i].native_connection == old(self).clients@[i].native_connection && final(self).clients@[i].whisper_session == old(self).clients@[i].whisper_session && final(self).clients@[i].whisper_session_id == old(self).clients@[i].whisper_session_id
                } else {
                    final(self).clients@[i] == old(self).clients@[i]
                }),
            old(self).spec_has_client(client_id) ==> (if old(self).spec_assignment(client_id) is None {
                final(self).channels@ == old(self).channels@
            } else {
                forall|k: int|
                    0 <= k < old(self).channels@.len() ==> (if old(self).spec_assignment(
                        client_id,
                    ) == Some((#[trigger] old(self).channels@[k]).id) {
                        exists|ci: int|
                            0 <= ci < old(self).clients@.len() && (#[trigger] old(self).clients@[ci]).client_id == client_id && crate::channel::member_register_effect(
                                old(self).channels@[k],
                                final(self).channels@[k],
                                crate::client::ClientInfo {
                                    client_id,
                                    client_data: old(self).clients@[ci].client_data,
                                    rtc_connection: true,
                                    native_connection: old(self).clients@[ci].native_connection,
                                },
                            )
                    } else {
                        final(self).channels@[k] == old(self).channels@[k]
                    })
            }),
    {
        let ci = match self.find_client_index(client_id) {
            Some(i) => i,
            None => {
                return false;
            },
        };
        let fresh = self.clients[ci].initialize_rtc_connection();
        proof {
            assert forall|a: int, b: int|
                0 <= a < b < self.clients@.len() implies self.clients@[a].client_id
                != self.clients@[b].client_id by {
                assert(self.clients@[a].client_id == old(self).clients@[a].client_id);
                assert(self.clients@[b].client_id == old(self).clients@[b].client_id);
            }
            assert forall|a: int| 0 <= a < self.clients@.len() implies (
            #[trigger] self.clients@[a]).wf() by {
                if a != ci as int {
                    assert(self.clients@[a] == old(self).clients@[a]);
                }
            }
        }
        let info = self.clients[ci].info();
        match self.get_channel_id(client_id) {
            Some(channel_id) => {
                match self.find_channel_index(channel_id) {
                    Some(k) => {
                        proof {
                            assert forall|k2: int|
                                0 <= k2 < old(self).channels@.len() && old(self).channels@[k2].id
                                    == channel_id implies k2 == k as int by {
                                if k2 != k as int {
                                    assert(old(self).channels@[k2].id != old(self).channels@[k as int].id);
                                }
                            }
                            assert forall|c2: int|
                                0 <= c2 < old(self).clients@.len() && old(self).clients@[c2].client_id == client_id implies c2 == ci as int by {
                                if c2 != ci as int {
                                    assert(old(self).clients@[c2].client_id != old(self).clients@[ci as int].client_id);
                                }
                            }
                        }
                        self.channels[k].register_client(info);
                        proof {
                            assert forall|i: int, j: int|
                                0 <= i < j < self.channels@.len() implies self.channels@[i].id
                                != self.channels@[j].id by {
                                assert(self.channels@[i].id == old(self).channels@[i].id);
                                assert(self.channels@[j].id == old(self).channels@[j].id);
                            }
                            assert forall|i: int| 0 <= i < self.channels@.len() implies (
                            #[trigger] self.channels@[i]).id != 0 by {
                                assert(self.channels@[i].id == old(self).channels@[i].id);
                            }
                        }
                    },
                    None => {},
                }
            },
            None => {},
        }
        fresh
    }

    /// Marks a client's native transport as established and refreshes the
    /// membership record of the channel the client sits in.  Reports
    /// `false` for an unknown client.
    pub fn initialize_native_connection(&mut self, client_id: u32) -> (r: bool)
        requires
            old(self).wf(),
        ensures
            final(self).wf(),
            final(self).client_channel_assignments@ == old(self).client_channel_assignments@,
            r == old(self).spec_has_client(client_id),
            !old(self).spec_has_client(client_id) ==> final(self).clients@ == old(self).clients@ && final(self).channels@ == old(self).channels@,
            final(self).clients@.len() == old(self).clients@.len(),
            final(self).channels@.len() == old(self).channels@.len(),
            forall|i: int|
                0 <= i < old(self).clients@.len() ==> (if old(self).clients@[i].client_id
                    == client_id {
                    (#[trigger] final(self).clients@[i]).native_connection && final(self).clients@[i].client_id == old(self).clients@[i].client_id && final(self).clients@[i].client_data == old(self).clients@[i].client_data && final(self).clients@[i].rtc_connection == old(self).clients@[i].rtc_connection && final(self).clients@[i].whisper_session == old(self).clients@[i].whisper_session && final(self).clients@[i].whisper_session_id == old(self).clients@[i].whisper_session_id
                } else {
                    final(self).clients@[i] == old(self).clients@[i]
                }),
            old(self).spec_has_client(client_id) ==> (if old(self).spec_assignment(client_id) is None {
                final(self).channels@ == old(self).channels@
            } else {
                forall|k: int|
                    0 <= k < old(self).channels@.len() ==> (if old(self).spec_assignment(
                        client_id,
                    ) == Some((#[trigger] old(self).channels@[k]).id) {
                        exists|ci: int|
                            0 <= ci < old(self).clients@.len() && (#[trigger] old(self).clients@[ci]).client_id == client_id && crate::channel::member_register_effect(
                                old(self).channels@[k],
                                final(self).channels@[k],
                                crate::client::ClientInfo {
                                    client_id,
                                    client_data: old(self).clients@[ci].client_data,
                                    rtc_connection: old(self).clients@[ci].rtc_connection,
                                    native_connection: true,
                                },
                            )
                    } else {
                        final(self).channels@[k] == old(self).channels@[k]
                    })
            }),
    {
        let ci = match self.find_client_index(client_id) {
            Some(i) => i,
            None => {
                return false;
            },
        };
        self.clients[ci].initialize_native_connection();
        proof {
            assert forall|a: int, b: int|
                0 <= a < b < self.clients@.len() implies self.clients@[a].client_id
                != self.clients@[b].client_id by {
                assert(self.clients@[a].client_id == old(self).clients@[a].client_id);
                assert(self.clients@[b].client_id == old(self).clients@[b].client_id);
            }
            assert forall|a: int| 0 <= a < self.clients@.len() implies (
            #[trigger] self.clients@[a]).wf() by {
                if a != ci as int {
                    assert(self.clients@[a] == old(self).clients@[a]);
                }
            }
        }
        let info = self.clients[ci].info();
        match self.get_channel_id(client_id) {
            Some(channel_id) => {
                match self.find_channel_index(channel_id) {
                    Some(k) => {
                        proof {
                            assert forall|k2: int|
                                0 <= k2 < old(self).channels@.len() && old(self).channels@[k2].id
                                    == channel_id implies k2 == k as int by {
                                if k2 != k as int {
                                    assert(old(self).channels@[k2].id != old(self).channels@[k as int].id);
                                }
                            }
                            assert forall|c2: int|
                                0 <= c2 < old(self).clients@.len() && old(self).clients@[c2].client_id == client_id implies c2 == ci as int by {
                                if c2 != ci as int {
                                    assert(old(self).clients@[c2].client_id != old(self).clients@[ci as int].client_id);
                                }
                            }
                        }
                        self.channels[k].register_client(info);
                        proof {
                            assert forall|i: int, j: int|
                                0 <= i < j < self.channels@.len() implies self.channels@[i].id
                                != self.channels@[j].id by {
                                assert(self.channels@[i].id == old(self).channels@[i].id);
                                assert(self.channels@[j].id == old(self).channels@[j].id);
                            }
                            assert forall|i: int| 0 <= i < self.channels@.len() implies (
                            #[trigger] self.channels@[i]).id != 0 by {
                                assert(self.channels@[i].id == old(self).channels@[i].id);
                            }
                        }
                    },
                    None => {},
                }
            },
            None => {},
        }
        true
    }
}


/// Sink membership after appending one attachment.
proof fn lemma_sink_push_mem(
    s: Seq<crate::broadcast_audio::AudioSinkAttachment>,
    att: crate::broadcast_audio::AudioSinkAttachment,
    id: u32,
)
    ensures
        crate::broadcast_audio::sink_ids_of(s.push(att)).contains(id) == (
        crate::broadcast_audio::sink_ids_of(s).contains(id) || att.owner_id == id),
{
    let pre = crate::broadcast_audio::sink_ids_of(s);
    let post = crate::broadcast_audio::sink_ids_of(s.push(att));
    if post.contains(id) {
        let i = choose|i: int| 0 <= i < post.len() && post[i] == id;
        if i < s.len() {
            assert(pre[i] == id);
        } else {
            assert(s.push(att)[i] == att);
        }
    }
    if pre.contains(id) {
        let i = choose|i: int| 0 <= i < pre.len() && pre[i] == id;
        assert(s.push(att)[i] == s[i]);
        assert(post[i] == id);
    }
    if att.owner_id == id {
        assert(post[s.len() as int] == id);
    }
}

} // verus!
