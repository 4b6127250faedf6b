//! What the node decides when peers connect, disconnect and send messages:
//! the sessions and channels it keeps per peer, and what it does next. The
//! actors, sessions and timers around these decisions live outside the library.
use vstd::prelude::*;

use crate::keys::Hash256;
use crate::messages::{
    AcceptChannel, OpenChannel, PCNMessage, SpecAcceptChannel, SpecOpenChannel, SpecPCNMessage,
    SpecTestMessage, TestMessage,
};

verus! {

/// The map that a list of entries denotes, keyed by each key's view; a later
/// entry wins over an earlier one with the same key.
pub open spec fn entries_map<K: View, V>(es: Seq<(K, V)>) -> Map<K::V, V>
    decreases es.len(),
{
    if es.len() == 0 {
        Map::empty()
    } else {
        entries_map(es.drop_last()).insert(es.last().0@, es.last().1)
    }
}

/// No two entries share a key.
pub open spec fn keys_unique<K: View, V>(es: Seq<(K, V)>) -> bool {
    forall|i: int, j: int| 0 <= i < j < es.len() ==> (#[trigger] es[i]).0@ != (#[trigger] es[j]).0@
}

pub proof fn lemma_entries_map_contains<K: View, V>(es: Seq<(K, V)>, k: K::V)
    ensures
        entries_map(es).contains_key(k) <==> exists|i: int| 0 <= i < es.len() && (#[trigger] es[i]).0@ == k,
    decreases es.len(),
{
    if es.len() > 0 {
        let d = es.drop_last();
        lemma_entries_map_contains(d, k);
        if entries_map(es).contains_key(k) {
            if es.last().0@ != k {
                let i = choose|i: int| 0 <= i < d.len() && (#[trigger] d[i]).0@ == k;
                assert(es[i] == d[i]);
            }
        }
        if exists|i: int| 0 <= i < es.len() && (#[trigger] es[i]).0@ == k {
            let i = choose|i: int| 0 <= i < es.len() && (#[trigger] es[i]).0@ == k;
            if i < es.len() - 1 {
                assert(d[i] == es[i]);
            }
        }
    }
}

pub proof fn lemma_entries_map_value<K: View, V>(es: Seq<(K, V)>, i: int)
    requires
        keys_unique(es),
        0 <= i < es.len(),
    ensures
        entries_map(es).contains_key(es[i].0@),
        entries_map(es)[es[i].0@] == es[i].1,
    decreases es.len(),
{
    let d = es.drop_last();
    if i < es.len() - 1 {
        assert(keys_unique(d)) by {
            assert forall|a: int, b: int| 0 <= a < b < d.len() implies (#[trigger] d[a]).0@ != (
            #[trigger] d[b]).0@ by {
                assert(d[a] == es[a] && d[b] == es[b]);
            }
        }
        assert(d[i] == es[i]);
        lemma_entries_map_value(d, i);
        assert(es[i].0@ != es[es.len() - 1].0@);
    }
}

/// Two lists with the same keys and the same value for each denote the same map.
pub proof fn lemma_entries_map_ext<K: View, V>(a: Seq<(K, V)>, m: Map<K::V, V>)
    requires
        keys_unique(a),
        forall|k: K::V| m.contains_key(k) <==> exists|i: int| 0 <= i < a.len() && (#[trigger] a[i]).0@ == k,
        forall|i: int| 0 <= i < a.len() ==> m[(#[trigger] a[i]).0@] == a[i].1,
    ensures
        entries_map(a) == m,
{
    assert forall|k: K::V| entries_map(a).contains_key(k) <==> m.contains_key(k) by {
        lemma_entries_map_contains(a, k);
    }
    assert forall|k: K::V| entries_map(a).contains_key(k) implies entries_map(a)[k] == m[k] by {
        lemma_entries_map_contains(a, k);
        let i = choose|i: int| 0 <= i < a.len() && (#[trigger] a[i]).0@ == k;
        lemma_entries_map_value(a, i);
    }
    assert(entries_map(a) =~= m);
}

/// Whether two byte strings are equal.
pub fn same_bytes(a: &[u8], b: &[u8]) -> (r: bool)
    ensures
        r == (a@ == b@),
{
    if a.len() != b.len() {
        return false;
    }
    let mut i: usize = 0;
    while i < a.len()
        invariant
            a@.len() == b@.len(),
            i <= a@.len(),
            forall|j: int| 0 <= j < i ==> a@[j] == b@[j],
        decreases a@.len() - i,
    {
        if a[i] != b[i] {
            return false;
        }
        i = i + 1;
    }
    assert(a@ =~= b@);
    true
}

/// What the node keeps of one peer: its open sessions, and the actor (by the
/// handle that the caller gave it) of each channel that the peer opened.
#[derive(Clone, Debug, PartialEq, Eq)]
pub struct PeerInfo {
    pub sessions: Vec<usize>,
    pub channels: Vec<(Hash256, u64)>,
}

/// The mathematical value of a [`PeerInfo`].
pub struct SpecPeerInfo {
    pub sessions: Set<usize>,
    pub channels: Map<Seq<u8>, u64>,
}

impl View for PeerInfo {
    type V = SpecPeerInfo;

    open spec fn view(&self) -> SpecPeerInfo {
        SpecPeerInfo { sessions: self.sessions@.to_set(), channels: entries_map(self.channels@) }
    }
}

impl PeerInfo {
    /// No session and no channel is listed twice.
    pub open spec fn wf(&self) -> bool {
        self.sessions@.no_duplicates() && keys_unique(self.channels@)
    }

    /// A peer with no session and no channel.
    pub fn new() -> (r: PeerInfo)
        ensures
            r.wf(),
            r@.sessions == Set::<usize>::empty(),
            r@.channels == Map::<Seq<u8>, u64>::empty(),
    {
        let r = PeerInfo { sessions: Vec::new(), channels: Vec::new() };
        assert(r@.sessions =~= Set::<usize>::empty());
        r
    }

    fn find_session(&self, s: usize) -> (r: Option<usize>)
        ensures
            match r {
                Some(i) => i < self.sessions@.len() && self.sessions@[i as int] == s,
                None => !self.sessions@.contains(s),
            },
    {
        let mut i: usize = 0;
        while i < self.sessions.len()
            invariant
                i <= self.sessions@.len(),
                forall|j: int| 0 <= j < i ==> self.sessions@[j] != s,
            decreases self.sessions@.len() - i,
        {
            if self.sessions[i] == s {
                return Some(i);
            }
            i = i + 1;
        }
        None
    }

    /// Where the channel with this id is listed.
    fn find_channel(&self, id: &Hash256) -> (r: Option<usize>)
        ensures
            match r {
                Some(i) => i < self.channels@.len() && self.channels@[i as int].0@ == id@,
                None => forall|j: int| 0 <= j < self.channels@.len() ==> (#[trigger] self.channels@[j]).0@ != id@,
            },
    {
        let mut i: usize = 0;
        while i < self.channels.len()
            invariant
                i <= self.channels@.len(),
                forall|j: int| 0 <= j < i ==> (#[trigger] self.channels@[j]).0@ != id@,
            decreases self.channels@.len() - i,
        {
            let entry = self.channels[i];
            if same_bytes(entry.0.0.as_slice(), id.0.as_slice()) {
                return Some(i);
            }
            i = i + 1;
        }
        None
    }

    /// Whether the peer opened a channel with this id.
    pub fn has_channel(&self, id: &Hash256) -> (r: bool)
        ensures
            r == self@.channels.contains_key(id@),
    {
        proof {
            lemma_entries_map_contains(self.channels@, id@);
        }
        self.find_channel(id).is_some()
    }

    /// Records a session of the peer.
    pub fn add_session(&mut self, s: usize)
        requires
            old(self).wf(),
        ensures
            final(self).wf(),
            final(self)@.sessions == old(self)@.sessions.insert(s),
            final(self)@.channels == old(self)@.channels,
    {
        match self.find_session(s) {
            Some(_) => {
                assert(self@.sessions =~= old(self)@.sessions.insert(s));
            },
            None => {
                let ghost before = self.sessions@;
                self.sessions.push(s);
                let ghost after = self.sessions@;
                assert(after =~= before.push(s));
                assert(after.no_duplicates()) by {
                    assert forall|a: int, b: int|
                        0 <= a < after.len() && 0 <= b < after.len() && a != b implies after[a]
                        != after[b] by {
                        if a < before.len() && b < before.len() {
                            assert(after[a] == before[a] && after[b] == before[b]);
                        } else if a == before.len() {
                            assert(after[b] == before[b]);
                            if before[b] == s {
                                assert(before.contains(s));
                            }
                        } else {
                            assert(after[a] == before[a]);
                            if before[a] == s {
                                assert(before.contains(s));
                            }
                        }
                    }
                }
                assert forall|x: usize| #[trigger] after.contains(x) <==> before.contains(x) || x == s by {
                    if after.contains(x) {
                        let a = choose|a: int| 0 <= a < after.len() && after[a] == x;
                        if a < before.len() {
                            assert(before[a] == x);
                        }
                    }
                    if before.contains(x) {
                        let a = choose|a: int| 0 <= a < before.len() && before[a] == x;
                        assert(after[a] == x);
                    }
                    if x == s {
                        assert(after[before.len() as int] == x);
                    }
                }
                assert(self@.sessions =~= old(self)@.sessions.insert(s));
            },
        }
    }

    /// Forgets a session of the peer.
    pub fn remove_session(&mut self, s: usize)
        requires
            old(self).wf(),
        ensures
            final(self).wf(),
            final(self)@.sessions == old(self)@.sessions.remove(s),
            final(self)@.channels == old(self)@.channels,
    {
        match self.find_session(s) {
            Some(i) => {
                let ghost before = self.sessions@;
                self.sessions.remove(i);
                assert(self.sessions@ =~= before.remove(i as int));
                assert(self.sessions@.no_duplicates()) by {
                    assert forall|a: int, b: int|
                        0 <= a < self.sessions@.len() && 0 <= b < self.sessions@.len() && a != b implies self.sessions@[a]
                        != self.sessions@[b] by {
                        let a0 = if a < i { a } else { a + 1 };
                        let b0 = if b < i { b } else { b + 1 };
                        assert(self.sessions@[a] == before[a0]);
                        assert(self.sessions@[b] == before[b0]);
                    }
                }
                assert forall|x: usize| #[trigger] self.sessions@.contains(x) <==> before.contains(x) && x != s by {
                    if self.sessions@.contains(x) {
                        let a = choose|a: int| 0 <= a < self.sessions@.len() && self.sessions@[a] == x;
                        let a0 = if a < i { a } else { a + 1 };
                        assert(before[a0] == x);
                        assert(a0 != i);
                    }
                    if before.contains(x) && x != s {
                        let a0 = choose|a: int| 0 <= a < before.len() && before[a] == x;
                        assert(a0 != i);
                        let a = if a0 < i { a0 } else { a0 - 1 };
                        assert(self.sessions@[a] == x);
                    }
                }
                assert(self@.sessions =~= old(self)@.sessions.remove(s));
            },
            None => {
                assert(self@.sessions =~= old(self)@.sessions.remove(s));
            },
        }
    }

    /// Records the actor of the channel with this id, in place of any earlier
    /// one, and gives back the handle that it replaces.
    pub fn record_channel(&mut self, id: Hash256, handle: u64) -> (r: Option<u64>)
        requires
            old(self).wf(),
        ensures
            final(self).wf(),
            final(self)@.channels == old(self)@.channels.insert(id@, handle),
            final(self)@.sessions == old(self)@.sessions,
            r == (if old(self)@.channels.contains_key(id@) {
                Some(old(self)@.channels[id@])
            } else {
                None
            }),
    {
        let ghost before = self.channels@;
        let ghost target = entries_map(before).insert(id@, handle);
        proof {
            lemma_entries_map_contains(before, id@);
        }
        match self.find_channel(&id) {
            Some(i) => {
                let replaced = self.channels[i].1;
                proof {
                    lemma_entries_map_value(before, i as int);
                }
                self.channels.set(i, (id, handle));
                let ghost after = self.channels@;
                assert(keys_unique(after)) by {
                    assert forall|a: int, b: int| 0 <= a < b < after.len() implies (#[trigger] after[a]).0@
                        != (#[trigger] after[b]).0@ by {
                        assert(before[a].0@ != before[b].0@);
                    }
                }
                assert forall|k: Seq<u8>| target.contains_key(k) <==> exists|j: int|
                    0 <= j < after.len() && (#[trigger] after[j]).0@ == k by {
                    lemma_entries_map_contains(before, k);
                    if target.contains_key(k) && k != id@ {
                        let j = choose|j: int| 0 <= j < before.len() && (#[trigger] before[j]).0@ == k;
                        assert(after[j].0@ == k);
                    }
                    if target.contains_key(k) && k == id@ {
                        assert(after[i as int].0@ == k);
                    }
                    if exists|j: int| 0 <= j < after.len() && (#[trigger] after[j]).0@ == k {
                        let j = choose|j: int| 0 <= j < after.len() && (#[trigger] after[j]).0@ == k;
                        if j != i {
                            assert(before[j].0@ == k);
                        }
                    }
                }
                assert forall|j: int| 0 <= j < after.len() implies target[(#[trigger] after[j]).0@]
                    == after[j].1 by {
                    if j != i {
                        lemma_entries_map_value(before, j);
                        assert(before[j].0@ != before[i as int].0@);
                    }
                }
                proof {
                    lemma_entries_map_ext(after, target);
                }
                Some(replaced)
            },
            None => {
                self.channels.push((id, handle));
                let ghost after = self.channels@;
                assert(after.drop_last() =~= before);
                assert(keys_unique(after)) by {
                    assert forall|a: int, b: int| 0 <= a < b < after.len() implies (#[trigger] after[a]).0@
                        != (#[trigger] after[b]).0@ by {
                        if b == after.len() - 1 {
                            assert(before[a] == after[a]);
                        } else {
                            assert(before[a] == after[a] && before[b] == after[b]);
                        }
                    }
                }
                None
            },
        }
    }

    /// Takes out the actor of the channel with this id, if there is one.
    pub fn take_channel(&mut self, id: &Hash256) -> (r: Option<u64>)
        requires
            old(self).wf(),
        ensures
            final(self).wf(),
            final(self)@.sessions == old(self)@.sessions,
            old(self)@.channels.contains_key(id@) ==> r == Some(old(self)@.channels[id@])
                && final(self)@.channels == old(self)@.channels.remove(id@),
            !old(self)@.channels.contains_key(id@) ==> r is None && final(self)@.channels
                == old(self)@.channels,
    {
        let ghost before = self.channels@;
        proof {
            lemma_entries_map_contains(before, id@);
        }
        match self.find_channel(id) {
            Some(i) => {
                let handle = self.channels[i].1;
                proof {
                    lemma_entries_map_value(before, i as int);
                }
                self.channels.remove(i);
                let ghost after = self.channels@;
                let ghost target = entries_map(before).remove(id@);
                assert(after =~= before.remove(i as int));
                assert(forall|a: int| 0 <= a < after.len() ==> after[a] == before[if a < i { a } else { a + 1 }]);
                assert(keys_unique(after)) by {
                    assert forall|a: int, b: int| 0 <= a < b < after.len() implies (#[trigger] after[a]).0@
                        != (#[trigger] after[b]).0@ by {
                        let a0 = if a < i { a } else { a + 1 };
                        let b0 = if b < i { b } else { b + 1 };
                        assert(before[a0].0@ != before[b0].0@);
                    }
                }
                assert forall|k: Seq<u8>| target.contains_key(k) <==> exists|j: int|
                    0 <= j < after.len() && (#[trigger] after[j]).0@ == k by {
                    lemma_entries_map_contains(before, k);
                    if target.contains_key(k) {
                        let j0 = choose|j: int| 0 <= j < before.len() && (#[trigger] before[j]).0@ == k;
                        assert(j0 != i);
                        let j = if j0 < i { j0 } else { j0 - 1 };
                        assert(after[j].0@ == k);
                    }
                    if exists|j: int| 0 <= j < after.len() && (#[trigger] after[j]).0@ == k {
                        let j = choose|j: int| 0 <= j < after.len() && (#[trigger] after[j]).0@ == k;
                        let j0 = if j < i { j } else { j + 1 };
                        assert(before[j0].0@ == k);
                        assert(j0 != i);
                        assert(before[j0].0@ != before[i as int].0@);
                    }
                }
                assert forall|j: int| 0 <= j < after.len() implies target[(#[trigger] after[j]).0@]
                    == after[j].1 by {
                    let j0 = if j < i { j } else { j + 1 };
                    lemma_entries_map_value(before, j0);
                    assert(before[j0].0@ != before[i as int].0@);
                }
                proof {
                    lemma_entries_map_ext(after, target);
                }
                Some(handle)
            },
            None => None,
        }
    }
}

/// An event about one peer: a session opened or closed, or a message came in
/// on a session.
#[derive(Clone, Debug, PartialEq, Eq)]
pub enum PeerActorMessage {
    Connected(usize),
    Disconneccted(usize),
    Message(usize, PCNMessage),
}

/// The mathematical value of a [`PeerActorMessage`].
pub enum SpecPeerActorMessage {
    Connected(usize),
    Disconneccted(usize),
    Message(usize, SpecPCNMessage),
}

impl View for PeerActorMessage {
    type V = SpecPeerActorMessage;

    open spec fn view(&self) -> SpecPeerActorMessage {
        match self {
            PeerActorMessage::Connected(s) => SpecPeerActorMessage::Connected(*s),
            PeerActorMessage::Disconneccted(s) => SpecPeerActorMessage::Disconneccted(*s),
            PeerActorMessage::Message(s, m) => SpecPeerActorMessage::Message(*s, m@),
        }
    }
}

/// What the peer's actor does after an event.
#[derive(Clone, Debug, PartialEq, Eq)]
pub enum PeerAction {
    /// Nothing more than the change of state.
    Nothing,
    /// Start an actor for the channel that the peer opens, then record it;
    /// `duplicate` says that the peer had opened a channel with this id before.
    SpawnChannel { channel_id: Hash256, duplicate: bool, open_channel: OpenChannel },
    /// Show the test message.
    ShowTestMessage(TestMessage),
    /// Hand the acceptance to the actor of its channel.
    ForwardAcceptChannel { channel: u64, accept_channel: AcceptChannel },
    /// Warn of an acceptance of a channel that the peer never opened.
    UnknownChannel(Hash256),
    /// Report a message that is not handled yet.
    Unhandled(PCNMessage),
}

/// The mathematical value of a [`PeerAction`].
pub enum SpecPeerAction {
    Nothing,
    SpawnChannel { channel_id: Seq<u8>, duplicate: bool, open_channel: SpecOpenChannel },
    ShowTestMessage(SpecTestMessage),
    ForwardAcceptChannel { channel: u64, accept_channel: SpecAcceptChannel },
    UnknownChannel(Seq<u8>),
    Unhandled(SpecPCNMessage),
}

impl View for PeerAction {
    type V = SpecPeerAction;

    open spec fn view(&self) -> SpecPeerAction {
        match self {
            PeerAction::Nothing => SpecPeerAction::Nothing,
            PeerAction::SpawnChannel { channel_id, duplicate, open_channel } => SpecPeerAction::SpawnChannel {
                channel_id: channel_id@,
                duplicate: *duplicate,
                open_channel: open_channel@,
            },
            PeerAction::ShowTestMessage(m) => SpecPeerAction::ShowTestMessage(m@),
            PeerAction::ForwardAcceptChannel { channel, accept_channel } => SpecPeerAction::ForwardAcceptChannel {
                channel: *channel,
                accept_channel: accept_channel@,
            },
            PeerAction::UnknownChannel(id) => SpecPeerAction::UnknownChannel(id@),
            PeerAction::Unhandled(m) => SpecPeerAction::Unhandled(m@),
        }
    }
}

/// The state of a peer after an event, and what its actor does next.
pub open spec fn peer_step(s: SpecPeerInfo, msg: SpecPeerActorMessage) -> (SpecPeerInfo, SpecPeerAction) {
    match msg {
        SpecPeerActorMessage::Connected(x) => (
            SpecPeerInfo { sessions: s.sessions.insert(x), channels: s.channels },
            SpecPeerAction::Nothing,
        ),
        SpecPeerActorMessage::Disconneccted(x) => (
            SpecPeerInfo { sessions: s.sessions.remove(x), channels: s.channels },
            SpecPeerAction::Nothing,
        ),
        SpecPeerActorMessage::Message(_, m) => match m {
            SpecPCNMessage::OpenChannel(o) => (
                s,
                SpecPeerAction::SpawnChannel {
                    channel_id: o.channel_id,
                    duplicate: s.channels.contains_key(o.channel_id),
                    open_channel: o,
                },
            ),
            SpecPCNMessage::TestMessage(t) => (s, SpecPeerAction::ShowTestMessage(t)),
            SpecPCNMessage::AcceptChannel(a) => if s.channels.contains_key(a.channel_id) {
                (
                    SpecPeerInfo { sessions: s.sessions, channels: s.channels.remove(a.channel_id) },
                    SpecPeerAction::ForwardAcceptChannel {
                        channel: s.channels[a.channel_id],
                        accept_channel: a,
                    },
                )
            } else {
                (s, SpecPeerAction::UnknownChannel(a.channel_id))
            },
            _ => (s, SpecPeerAction::Unhandled(m)),
        },
    }
}

/// Connecting a session twice is the same as connecting it once.
pub proof fn lemma_connect_idempotent(s: SpecPeerInfo, x: usize)
    ensures
        peer_step(peer_step(s, SpecPeerActorMessage::Connected(x)).0, SpecPeerActorMessage::Connected(x))
            == peer_step(s, SpecPeerActorMessage::Connected(x)),
{
    assert(s.sessions.insert(x).insert(x) =~= s.sessions.insert(x));
}

/// Disconnecting a session that was just connected, and was not connected
/// before, gives back the state from before the connection.
pub proof fn lemma_disconnect_undoes_connect(s: SpecPeerInfo, x: usize)
    requires
        !s.sessions.contains(x),
    ensures
        peer_step(peer_step(s, SpecPeerActorMessage::Connected(x)).0, SpecPeerActorMessage::Disconneccted(x)).0
            == s,
{
    assert(s.sessions.insert(x).remove(x) =~= s.sessions);
}

/// A message from the peer never changes its sessions, and the channels
/// after it are some of the channels before it.
pub proof fn lemma_messages_keep_sessions(s: SpecPeerInfo, session: usize, m: SpecPCNMessage)
    ensures
        peer_step(s, SpecPeerActorMessage::Message(session, m)).0.sessions == s.sessions,
        peer_step(s, SpecPeerActorMessage::Message(session, m)).0.channels.submap_of(s.channels),
{
}

/// An acceptance of a channel that was recorded with a handle goes to that
/// handle and the channel is forgotten; a second acceptance of the same
/// channel, on any session, is reported as one of an unknown channel.
pub proof fn lemma_accept_forwarded_once(
    s: SpecPeerInfo,
    h: u64,
    a: SpecAcceptChannel,
    first: usize,
    second: usize,
)
    ensures
        ({
            let recorded = SpecPeerInfo { sessions: s.sessions, channels: s.channels.insert(a.channel_id, h) };
            let (after, action) = peer_step(
                recorded,
                SpecPeerActorMessage::Message(first, SpecPCNMessage::AcceptChannel(a)),
            );
            &&& action == SpecPeerAction::ForwardAcceptChannel { channel: h, accept_channel: a }
            &&& after == SpecPeerInfo { sessions: s.sessions, channels: s.channels.remove(a.channel_id) }
            &&& peer_step(after, SpecPeerActorMessage::Message(second, SpecPCNMessage::AcceptChannel(a)))
                == (after, SpecPeerAction::UnknownChannel(a.channel_id))
        }),
{
    assert(s.channels.insert(a.channel_id, h).remove(a.channel_id) =~= s.channels.remove(a.channel_id));
}

/// A message other than an open request, a test message or an acceptance
/// changes nothing that is kept, and is reported, itself, as not handled.
pub proof fn lemma_other_messages_unhandled(s: SpecPeerInfo, session: usize, m: SpecPCNMessage)
    requires
        !(m is OpenChannel),
        !(m is TestMessage),
        !(m is AcceptChannel),
    ensures
        peer_step(s, SpecPeerActorMessage::Message(session, m)) == (s, SpecPeerAction::Unhandled(m)),
{
}

/// A test message changes nothing that is kept, and is shown as it came.
pub proof fn lemma_test_message_shown(s: SpecPeerInfo, session: usize, t: SpecTestMessage)
    ensures
        peer_step(s, SpecPeerActorMessage::Message(session, SpecPCNMessage::TestMessage(t)))
            == (s, SpecPeerAction::ShowTestMessage(t)),
{
}

/// An acceptance of a channel that is not recorded changes nothing that is
/// kept, and is reported as one of an unknown channel.
pub proof fn lemma_unknown_acceptance(s: SpecPeerInfo, session: usize, a: SpecAcceptChannel)
    requires
        !s.channels.contains_key(a.channel_id),
    ensures
        peer_step(s, SpecPeerActorMessage::Message(session, SpecPCNMessage::AcceptChannel(a)))
            == (s, SpecPeerAction::UnknownChannel(a.channel_id)),
{
}

/// An open request reports a duplicate exactly when a channel with its id is
/// recorded, and changes nothing that is kept.
pub proof fn lemma_open_channel_keeps_state(s: SpecPeerInfo, session: usize, o: SpecOpenChannel)
    ensures
        peer_step(s, SpecPeerActorMessage::Message(session, SpecPCNMessage::OpenChannel(o)))
            == (s, SpecPeerAction::SpawnChannel {
                channel_id: o.channel_id,
                duplicate: s.channels.contains_key(o.channel_id),
                open_channel: o,
            }),
{
}

/// The actor of one peer.
#[derive(Clone, Copy, Debug)]
pub struct PeerActor {}

impl PeerActor {
    /// Handles an event about the peer: updates what is kept of it, and says
    /// what to do next.
    pub fn handle(&self, msg: PeerActorMessage, state: &mut PeerInfo) -> (a: PeerAction)
        requires
            old(state).wf(),
        ensures
            final(state).wf(),
            (final(state)@, a@) == peer_step(old(state)@, msg@),
    {
        match msg {
            PeerActorMessage::Connected(x) => {
                state.add_session(x);
                PeerAction::Nothing
            },
            PeerActorMessage::Disconneccted(x) => {
                state.remove_session(x);
                PeerAction::Nothing
            },
            PeerActorMessage::Message(_, message) => match message {
                PCNMessage::OpenChannel(o) => {
                    let id = o.channel_id;
                    let duplicate = state.has_channel(&id);
                    PeerAction::SpawnChannel { channel_id: id, duplicate, open_channel: o }
                },
                PCNMessage::TestMessage(t) => PeerAction::ShowTestMessage(t),
                PCNMessage::AcceptChannel(m) => match state.take_channel(&m.channel_id) {
                    Some(c) => PeerAction::ForwardAcceptChannel { channel: c, accept_channel: m },
                    None => PeerAction::UnknownChannel(m.channel_id),
                },
                other => PeerAction::Unhandled(other),
            },
        }
    }
}

} // verus!
