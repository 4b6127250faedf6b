//! What the network controller decides for each command: which session of
//! which peer a message goes to, and which address to dial. Sending and
//! dialing themselves happen outside the library.
use vstd::prelude::*;

use crate::messages::PCNMessage;
use crate::peer::{entries_map, keys_unique, lemma_entries_map_contains, lemma_entries_map_value, same_bytes, PeerInfo};

verus! {

/// The name under which the actor of a peer is registered: `peer `, then the
/// peer's id in base58.
pub fn get_peer_actor_name(peer_id_base58: &str) -> (r: String)
    ensures
        r@ == "peer "@ + peer_id_base58@,
{
    let mut r = "peer ".to_owned();
    r.append(peer_id_base58);
    r
}

/// The network controller.
#[derive(Clone, Copy, Debug)]
pub struct NetworkControllerActor {}

/// What the controller knows: each peer, by its id, with what is kept of it.
#[derive(Clone, Debug, PartialEq, Eq)]
pub struct NetworkStateNew {
    pub peers: Vec<(Vec<u8>, PeerInfo)>,
}

impl NetworkStateNew {
    /// No peer is listed twice, and what is kept of each is well formed.
    pub open spec fn wf(&self) -> bool {
        &&& keys_unique(self.peers@)
        &&& forall|i: int| 0 <= i < self.peers@.len() ==> (#[trigger] self.peers@[i]).1.wf()
    }

    /// The peers by their ids.
    pub open spec fn peer_map(&self) -> Map<Seq<u8>, PeerInfo> {
        entries_map(self.peers@)
    }

    /// A controller that knows no peer.
    pub fn new() -> (r: NetworkStateNew)
        ensures
            r.wf(),
            r.peer_map() == Map::<Seq<u8>, PeerInfo>::empty(),
    {
        NetworkStateNew { peers: Vec::new() }
    }
}

/// A command to the network controller.
#[derive(Clone, Debug, PartialEq, Eq)]
pub enum Command {
    /// Send a message to a peer, given by its id.
    SendPcnMessage { peer_id: Vec<u8>, message: PCNMessage },
    /// Connect to the peer at this address.
    ConnectPeer(String),
    /// A command for a channel, which the controller leaves alone.
    ControlPcnChannel,
}

/// What the controller does for a command.
#[derive(Clone, Debug, PartialEq, Eq)]
pub enum ControllerAction {
    /// Send these bytes on this session.
    Send { session: usize, bytes: Vec<u8> },
    /// Report that no session of the peer is known.
    SessionNotFound(Vec<u8>),
    /// Dial this address.
    Dial(String),
    /// Nothing.
    Nothing,
}

impl NetworkControllerActor {
    /// Decides what to do for a command.
    pub fn handle(&self, command: Command, state: &NetworkStateNew) -> (a: ControllerAction)
        requires
            state.wf(),
        ensures
            match command {
                Command::SendPcnMessage { peer_id, message } => {
                    if state.peer_map().contains_key(peer_id@) && exists|x: usize|
                        #[trigger] state.peer_map()[peer_id@]@.sessions.contains(x) {
                        a matches ControllerAction::Send { session, bytes } && state.peer_map()[peer_id@]@.sessions.contains(
                            session,
                        ) && bytes@ == PCNMessage::spec_bytes(message@)
                    } else {
                        a matches ControllerAction::SessionNotFound(p) && p@ == peer_id@
                    }
                },
                Command::ConnectPeer(addr) => a matches ControllerAction::Dial(d) && d@ == addr@,
                Command::ControlPcnChannel => a is Nothing,
            },
    {
        match command {
            Command::SendPcnMessage { peer_id, message } => {
                let ghost m = state.peer_map();
                let mut i: usize = 0;
                while i < state.peers.len()
                    invariant
                        i <= state.peers@.len(),
                        forall|j: int| 0 <= j < i ==> (#[trigger] state.peers@[j]).0@ != peer_id@,
                    ensures
                        i <= state.peers@.len(),
                        forall|j: int| 0 <= j < i ==> (#[trigger] state.peers@[j]).0@ != peer_id@,
                        i < state.peers@.len() ==> state.peers@[i as int].0@ == peer_id@,
                    decreases state.peers@.len() - i,
                {
                    if same_bytes(state.peers[i].0.as_slice(), peer_id.as_slice()) {
                        break;
                    }
                    i = i + 1;
                }
                proof {
                    lemma_entries_map_contains(state.peers@, peer_id@);
                }
                if i < state.peers.len() {
                    let ghost here = state.peers@[i as int];
                    assert(here.0@ == peer_id@);
                    proof {
                        lemma_entries_map_value(state.peers@, i as int);
                    }
                    let info = &state.peers[i].1;
                    if info.sessions.len() > 0 {
                        let session = info.sessions[0];
                        assert(info.sessions@.contains(session));
                        let bytes = message.to_molecule_bytes();
                        ControllerAction::Send { session, bytes }
                    } else {
                        assert forall|x: usize| !(#[trigger] info@.sessions.contains(x)) by {}
                        ControllerAction::SessionNotFound(peer_id)
                    }
                } else {
                    ControllerAction::SessionNotFound(peer_id)
                }
            },
            Command::ConnectPeer(addr) => ControllerAction::Dial(addr),
            Command::ControlPcnChannel => ControllerAction::Nothing,
        }
    }
}

} // verus!
