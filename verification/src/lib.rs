//! Wire types of the payment channel network protocol: keys, hashes and the
//! protocol's messages, their molecule encoding with verified encoders and
//! decoders, and the decisions that the network and peer actors make.
pub mod ckb;
pub mod error;
pub mod fields;
pub mod keys;
pub mod le;
pub mod messages;
pub mod molecule;
pub mod network;
pub mod peer;

pub use ckb::{Script, Transaction};
pub use error::{Error, SecpError};
pub use keys::{Hash256, Privkey, PubNonce, Pubkey, Signature};
pub use messages::{
    AcceptChannel, AddTlc, ChannelReady, ClosingSigned, CommitmentSigned, OpenChannel, PCNMessage,
    RemoveTlc, RemoveTlcFail, RemoveTlcFulfill, RemoveTlcReason, RevokeAndAck, Shutdown,
    TestMessage, TlcsSigned, TxAbort, TxAckRBF, TxAdd, TxComplete, TxInitRBF, TxRemove,
    TxSignatures,
};
pub use molecule::VerificationError;
pub use network::{get_peer_actor_name, Command, ControllerAction, NetworkControllerActor, NetworkStateNew};
pub use peer::{PeerAction, PeerActor, PeerActorMessage, PeerInfo};
