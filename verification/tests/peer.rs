use fiber_types::{
    AcceptChannel, ChannelReady, Command, ControllerAction, Hash256, NetworkControllerActor,
    NetworkStateNew, OpenChannel, PCNMessage, PeerAction, PeerActor, PeerActorMessage, PeerInfo,
    Privkey, PubNonce, Pubkey, TestMessage,
};

fn pubkey(seed: u8) -> Pubkey {
    Privkey::from_slice(&[seed; 32]).pubkey()
}

fn nonce() -> PubNonce {
    let mut bytes = [0u8; 66];
    bytes[..33].copy_from_slice(&pubkey(1).serialize());
    bytes[33..].copy_from_slice(&pubkey(2).serialize());
    PubNonce::from_bytes(&bytes).unwrap()
}

fn open_channel(id: u8) -> OpenChannel {
    OpenChannel {
        chain_hash: Hash256([0; 32]),
        channel_id: Hash256([id; 32]),
        funding_type_script: None,
        funding_amount: 1,
        funding_fee_rate: 2,
        commitment_fee_rate: 3,
        max_tlc_value_in_flight: 4,
        max_accept_tlcs: 5,
        min_tlc_value: 6,
        to_self_delay: 7,
        funding_pubkey: pubkey(3),
        revocation_basepoint: pubkey(4),
        payment_basepoint: pubkey(5),
        delayed_payment_basepoint: pubkey(6),
        tlc_basepoint: pubkey(7),
        first_per_commitment_point: pubkey(8),
        second_per_commitment_point: pubkey(9),
        next_local_nonce: nonce(),
        channel_flags: 0,
    }
}

fn accept_channel(id: u8) -> AcceptChannel {
    AcceptChannel {
        channel_id: Hash256([id; 32]),
        funding_amount: 1,
        max_tlc_value_in_flight: 2,
        max_accept_tlcs: 3,
        min_tlc_value: 4,
        to_self_delay: 5,
        funding_pubkey: pubkey(3),
        revocation_basepoint: pubkey(4),
        payment_basepoint: pubkey(5),
        delayed_payment_basepoint: pubkey(6),
        tlc_basepoint: pubkey(7),
        first_per_commitment_point: pubkey(8),
        second_per_commitment_point: pubkey(9),
        next_local_nonce: nonce(),
    }
}

#[test]
fn sessions_come_and_go() {
    let actor = PeerActor {};
    let mut info = PeerInfo::new();
    assert_eq!(actor.handle(PeerActorMessage::Connected(1), &mut info), PeerAction::Nothing);
    assert_eq!(actor.handle(PeerActorMessage::Connected(2), &mut info), PeerAction::Nothing);
    assert_eq!(actor.handle(PeerActorMessage::Connected(1), &mut info), PeerAction::Nothing);
    assert_eq!(info.sessions, vec![1, 2]);
    assert_eq!(actor.handle(PeerActorMessage::Disconneccted(1), &mut info), PeerAction::Nothing);
    assert_eq!(info.sessions, vec![2]);
    assert_eq!(actor.handle(PeerActorMessage::Disconneccted(7), &mut info), PeerAction::Nothing);
    assert_eq!(info.sessions, vec![2]);
}

#[test]
fn open_channel_asks_for_a_channel_actor() {
    let actor = PeerActor {};
    let mut info = PeerInfo::new();
    let o = open_channel(4);
    let a = actor.handle(PeerActorMessage::Message(1, PCNMessage::OpenChannel(o.clone())), &mut info);
    assert_eq!(
        a,
        PeerAction::SpawnChannel { channel_id: Hash256([4; 32]), duplicate: false, open_channel: o.clone() }
    );
    info.record_channel(Hash256([4; 32]), 40);
    let again = actor.handle(PeerActorMessage::Message(1, PCNMessage::OpenChannel(o.clone())), &mut info);
    assert_eq!(
        again,
        PeerAction::SpawnChannel { channel_id: Hash256([4; 32]), duplicate: true, open_channel: o }
    );
}

#[test]
fn accept_channel_goes_to_its_channel_once() {
    let actor = PeerActor {};
    let mut info = PeerInfo::new();
    info.record_channel(Hash256([4; 32]), 40);
    info.record_channel(Hash256([5; 32]), 50);
    let m = accept_channel(4);
    let a = actor.handle(PeerActorMessage::Message(1, PCNMessage::AcceptChannel(m.clone())), &mut info);
    assert_eq!(a, PeerAction::ForwardAcceptChannel { channel: 40, accept_channel: m.clone() });
    assert!(!info.has_channel(&Hash256([4; 32])));
    assert!(info.has_channel(&Hash256([5; 32])));
    let b = actor.handle(PeerActorMessage::Message(1, PCNMessage::AcceptChannel(m)), &mut info);
    assert_eq!(b, PeerAction::UnknownChannel(Hash256([4; 32])));
}

#[test]
fn other_messages_are_shown_or_reported() {
    let actor = PeerActor {};
    let mut info = PeerInfo::new();
    let t = TestMessage { bytes: vec![1, 2] };
    assert_eq!(
        actor.handle(PeerActorMessage::Message(3, PCNMessage::TestMessage(t.clone())), &mut info),
        PeerAction::ShowTestMessage(t)
    );
    let r = PCNMessage::ChannelReady(ChannelReady { channel_id: Hash256([1; 32]) });
    assert_eq!(actor.handle(PeerActorMessage::Message(3, r.clone()), &mut info), PeerAction::Unhandled(r));
    assert_eq!(info, PeerInfo::new());
}

#[test]
fn record_channel_replaces_and_take_channel_removes() {
    let mut info = PeerInfo::new();
    assert_eq!(info.record_channel(Hash256([1; 32]), 10), None);
    assert_eq!(info.record_channel(Hash256([1; 32]), 11), Some(10));
    assert_eq!(info.channels.len(), 1);
    assert_eq!(info.take_channel(&Hash256([1; 32])), Some(11));
    assert_eq!(info.take_channel(&Hash256([1; 32])), None);
    assert!(info.channels.is_empty());
}

#[test]
fn controller_sends_on_a_session_of_the_peer() {
    let controller = NetworkControllerActor {};
    let mut peer = PeerInfo::new();
    peer.add_session(9);
    let state = NetworkStateNew { peers: vec![(b"alice".to_vec(), peer), (b"bob".to_vec(), PeerInfo::new())] };
    let message = PCNMessage::ChannelReady(ChannelReady { channel_id: Hash256([2; 32]) });
    let a = controller.handle(
        Command::SendPcnMessage { peer_id: b"alice".to_vec(), message: message.clone() },
        &state,
    );
    assert_eq!(a, ControllerAction::Send { session: 9, bytes: message.to_molecule_bytes() });
    let b = controller.handle(
        Command::SendPcnMessage { peer_id: b"bob".to_vec(), message: message.clone() },
        &state,
    );
    assert_eq!(b, ControllerAction::SessionNotFound(b"bob".to_vec()));
    let c = controller.handle(Command::SendPcnMessage { peer_id: b"carol".to_vec(), message }, &state);
    assert_eq!(c, ControllerAction::SessionNotFound(b"carol".to_vec()));
}

#[test]
fn controller_dials_and_ignores_channel_commands() {
    let controller = NetworkControllerActor {};
    let state = NetworkStateNew::new();
    let addr = "/ip4/127.0.0.1/tcp/8119".to_string();
    assert_eq!(controller.handle(Command::ConnectPeer(addr.clone()), &state), ControllerAction::Dial(addr));
    assert_eq!(controller.handle(Command::ControlPcnChannel, &state), ControllerAction::Nothing);
}

#[test]
fn peer_actor_names() {
    assert_eq!(fiber_types::get_peer_actor_name("QmPeer"), "peer QmPeer");
    assert_eq!(fiber_types::get_peer_actor_name(""), "peer ");
}
