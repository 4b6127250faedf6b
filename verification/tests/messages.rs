use ckb_types::packed;
use ckb_types::prelude::{Builder, Entity, Pack};
use fiber_types::{
    AcceptChannel, AddTlc, ChannelReady, ClosingSigned, CommitmentSigned, Error, Hash256,
    OpenChannel, PCNMessage, Privkey, PubNonce, Pubkey, RemoveTlc, RemoveTlcFail,
    RemoveTlcFulfill, RemoveTlcReason, RevokeAndAck, Script, SecpError, Shutdown, Signature,
    TestMessage, TlcsSigned, Transaction, TxAbort, TxAckRBF, TxAdd, TxComplete, TxInitRBF,
    TxRemove, TxSignatures, VerificationError,
};

fn pubkey(seed: u8) -> Pubkey {
    Privkey::from_slice(&[seed; 32]).pubkey()
}

fn signature(seed: u8) -> Signature {
    let mut b = [0u8; 64];
    b[31] = seed;
    b[63] = seed.wrapping_add(1);
    Signature::from_compact(&b).unwrap()
}

fn nonce(a: u8, b: u8) -> PubNonce {
    let mut bytes = [0u8; 66];
    bytes[..33].copy_from_slice(&pubkey(a).serialize());
    bytes[33..].copy_from_slice(&pubkey(b).serialize());
    PubNonce::from_bytes(&bytes).unwrap()
}

fn hash(b: u8) -> Hash256 {
    Hash256([b; 32])
}

fn script() -> Script {
    Script::from_slice(packed::Script::default().as_slice()).unwrap()
}

fn transaction() -> Transaction {
    Transaction::from_slice(packed::Transaction::default().as_slice()).unwrap()
}

fn le32(n: usize) -> Vec<u8> {
    (n as u32).to_le_bytes().to_vec()
}

/// A molecule table of the given fields, written out by hand.
fn table(fields: &[Vec<u8>]) -> Vec<u8> {
    let header = 4 * (fields.len() + 1);
    let total = header + fields.iter().map(|f| f.len()).sum::<usize>();
    let mut out = le32(total);
    let mut offset = header;
    for f in fields {
        out.extend(le32(offset));
        offset += f.len();
    }
    for f in fields {
        out.extend(f);
    }
    out
}

fn molecule_err(e: VerificationError) -> Error {
    Error::Molecule(e)
}

fn open_channel() -> OpenChannel {
    OpenChannel {
        chain_hash: hash(1),
        channel_id: hash(2),
        funding_type_script: Some(script()),
        funding_amount: 100_000,
        funding_fee_rate: 1_000,
        commitment_fee_rate: 2_000,
        max_tlc_value_in_flight: u64::MAX,
        max_accept_tlcs: 30,
        min_tlc_value: 1,
        to_self_delay: 144,
        funding_pubkey: pubkey(11),
        revocation_basepoint: pubkey(12),
        payment_basepoint: pubkey(13),
        delayed_payment_basepoint: pubkey(14),
        tlc_basepoint: pubkey(15),
        first_per_commitment_point: pubkey(16),
        second_per_commitment_point: pubkey(17),
        next_local_nonce: nonce(18, 19),
        channel_flags: 1,
    }
}

fn accept_channel() -> AcceptChannel {
    AcceptChannel {
        channel_id: hash(2),
        funding_amount: 50_000,
        max_tlc_value_in_flight: 10,
        max_accept_tlcs: 20,
        min_tlc_value: 3,
        to_self_delay: 6,
        funding_pubkey: pubkey(21),
        revocation_basepoint: pubkey(22),
        payment_basepoint: pubkey(23),
        delayed_payment_basepoint: pubkey(24),
        tlc_basepoint: pubkey(25),
        first_per_commitment_point: pubkey(26),
        second_per_commitment_point: pubkey(27),
        next_local_nonce: nonce(28, 29),
    }
}

fn every_message() -> Vec<PCNMessage> {
    vec![
        PCNMessage::TestMessage(TestMessage { bytes: vec![1, 2, 3] }),
        PCNMessage::OpenChannel(open_channel()),
        PCNMessage::AcceptChannel(accept_channel()),
        PCNMessage::CommitmentSigned(CommitmentSigned { channel_id: hash(3), signature: signature(4) }),
        PCNMessage::TxSignatures(TxSignatures {
            channel_id: hash(5),
            tx_hash: hash(6),
            witnesses: vec![vec![], vec![7, 8], vec![9; 40]],
        }),
        PCNMessage::ChannelReady(ChannelReady { channel_id: hash(7) }),
        PCNMessage::TxAdd(TxAdd { channel_id: hash(8), tx: transaction() }),
        PCNMessage::TxRemove(TxRemove { channel_id: hash(9), tx: transaction() }),
        PCNMessage::TxComplete(TxComplete { channel_id: hash(10) }),
        PCNMessage::TxAbort(TxAbort { channel_id: hash(11), message: b"abort".to_vec() }),
        PCNMessage::TxInitRBF(TxInitRBF { channel_id: hash(12), fee_rate: 77 }),
        PCNMessage::TxAckRBF(TxAckRBF { channel_id: hash(13) }),
        PCNMessage::Shutdown(Shutdown { channel_id: hash(14), close_script: script() }),
        PCNMessage::ClosingSigned(ClosingSigned { channel_id: hash(15), fee: 9, signature: signature(5) }),
        PCNMessage::AddTlc(AddTlc {
            channel_id: hash(16),
            tlc_id: 1,
            amount: 2,
            payment_hash: hash(17),
            expiry: 3,
        }),
        PCNMessage::TlcsSigned(TlcsSigned {
            channel_id: hash(18),
            signature: signature(6),
            tlc_signatures: vec![signature(7), signature(8)],
        }),
        PCNMessage::RevokeAndAck(RevokeAndAck {
            channel_id: hash(19),
            per_commitment_secret: hash(20),
            next_per_commitment_point: pubkey(30),
        }),
        PCNMessage::RemoveTlc(RemoveTlc {
            channel_id: hash(21),
            tlc_id: 4,
            reason: RemoveTlcReason::RemoveTlcFulfill(RemoveTlcFulfill { payment_preimage: hash(22) }),
        }),
        PCNMessage::RemoveTlc(RemoveTlc {
            channel_id: hash(23),
            tlc_id: 5,
            reason: RemoveTlcReason::RemoveTlcFail(RemoveTlcFail { error_code: 404 }),
        }),
    ]
}

#[test]
fn every_message_decodes_to_itself() {
    for m in every_message() {
        let bytes = m.to_molecule_bytes();
        assert_eq!(PCNMessage::from_molecule_slice(&bytes), Ok(m.clone()));
        assert_eq!(PCNMessage::check(&bytes), Ok(()));
    }
}

#[test]
fn union_item_ids_follow_the_message_order() {
    for (i, m) in every_message().into_iter().enumerate() {
        let bytes = m.to_molecule_bytes();
        let id = u32::from_le_bytes([bytes[0], bytes[1], bytes[2], bytes[3]]) as usize;
        assert_eq!(id, i.min(17));
    }
}

#[test]
fn channel_ready_bytes() {
    let m = ChannelReady { channel_id: hash(1) };
    let mut expected = vec![40, 0, 0, 0, 8, 0, 0, 0];
    expected.extend([1u8; 32]);
    assert_eq!(m.to_molecule_bytes(), expected);
    assert_eq!(ChannelReady::from_molecule_slice(&expected), Ok(m.clone()));
    let mut wire = vec![5, 0, 0, 0];
    wire.extend(&expected);
    assert_eq!(PCNMessage::ChannelReady(m.clone()).to_molecule_bytes(), wire);
    assert_eq!(PCNMessage::from_molecule_slice(&wire), Ok(PCNMessage::ChannelReady(m)));
}

#[test]
fn fields_match_the_molecule_of_ckb_types() {
    let payload = vec![1u8, 2, 3, 4, 5];
    let packed_bytes: packed::Bytes = payload.as_slice().pack();
    let m = TestMessage { bytes: payload };
    assert_eq!(m.to_molecule_bytes(), table(&[packed_bytes.as_slice().to_vec()]));

    let witnesses = vec![vec![], vec![1u8], vec![2u8, 3]];
    let packed_vec = packed::BytesVec::new_builder()
        .set(witnesses.iter().map(|w| w.as_slice().pack()).collect())
        .build();
    let sigs = TxSignatures { channel_id: hash(4), tx_hash: hash(5), witnesses };
    let h4: packed::Byte32 = [4u8; 32].pack();
    let h5: packed::Byte32 = [5u8; 32].pack();
    assert_eq!(
        sigs.to_molecule_bytes(),
        table(&[h4.as_slice().to_vec(), h5.as_slice().to_vec(), packed_vec.as_slice().to_vec()])
    );
}

#[test]
fn numbers_are_little_endian() {
    let m = TxInitRBF { channel_id: hash(0), fee_rate: 0x0102030405060708 };
    let bytes = m.to_molecule_bytes();
    assert_eq!(&bytes[bytes.len() - 8..], &[8, 7, 6, 5, 4, 3, 2, 1]);
    let f = RemoveTlcFail { error_code: 0x0a0b0c0d };
    assert_eq!(f.to_molecule_bytes(), vec![12, 0, 0, 0, 8, 0, 0, 0, 0x0d, 0x0c, 0x0b, 0x0a]);
}

#[test]
fn script_option_is_empty_when_absent() {
    let mut o = open_channel();
    o.funding_type_script = None;
    let bytes = o.to_molecule_bytes();
    assert_eq!(OpenChannel::from_molecule_slice(&bytes), Ok(o.clone()));
    let with = open_channel().to_molecule_bytes();
    assert_eq!(with.len(), bytes.len() + packed::Script::default().as_slice().len());
}

#[test]
fn short_input_has_a_broken_header() {
    assert_eq!(
        ChannelReady::from_molecule_slice(&[1, 2]),
        Err(molecule_err(VerificationError::HeaderIsBroken("ChannelReadyReader".to_string(), 4, 2)))
    );
    assert_eq!(
        PCNMessage::from_molecule_slice(&[]),
        Err(molecule_err(VerificationError::HeaderIsBroken("PCNMessageReader".to_string(), 4, 0)))
    );
}

#[test]
fn total_size_must_match() {
    let mut bytes = ChannelReady { channel_id: hash(1) }.to_molecule_bytes();
    bytes[0] = 41;
    assert_eq!(
        ChannelReady::from_molecule_slice(&bytes),
        Err(molecule_err(VerificationError::TotalSizeNotMatch("ChannelReadyReader".to_string(), 41, 40)))
    );
}

#[test]
fn offsets_must_be_aligned_and_ordered() {
    let mut bytes = ChannelReady { channel_id: hash(1) }.to_molecule_bytes();
    bytes[4] = 6;
    assert_eq!(
        ChannelReady::from_molecule_slice(&bytes),
        Err(molecule_err(VerificationError::OffsetsNotMatch("ChannelReadyReader".to_string())))
    );
    let mut sig = CommitmentSigned { channel_id: hash(1), signature: signature(1) }.to_molecule_bytes();
    sig[8] = 200;
    assert_eq!(
        CommitmentSigned::from_molecule_slice(&sig),
        Err(molecule_err(VerificationError::OffsetsNotMatch("CommitmentSignedReader".to_string())))
    );
    sig[8] = 100;
    assert_eq!(
        CommitmentSigned::from_molecule_slice(&sig),
        Err(molecule_err(VerificationError::TotalSizeNotMatch("Byte32Reader".to_string(), 32, 88)))
    );
}

#[test]
fn field_count_must_match() {
    let two = CommitmentSigned { channel_id: hash(1), signature: signature(1) }.to_molecule_bytes();
    assert_eq!(
        ChannelReady::from_molecule_slice(&two),
        Err(molecule_err(VerificationError::FieldCountNotMatch("ChannelReadyReader".to_string(), 1, 2)))
    );
    let one = ChannelReady { channel_id: hash(1) }.to_molecule_bytes();
    assert_eq!(
        CommitmentSigned::from_molecule_slice(&one),
        Err(molecule_err(VerificationError::FieldCountNotMatch("CommitmentSignedReader".to_string(), 2, 1)))
    );
}

#[test]
fn a_short_hash_field_is_refused() {
    let bytes = table(&[vec![1u8; 31]]);
    assert_eq!(
        ChannelReady::from_molecule_slice(&bytes),
        Err(molecule_err(VerificationError::TotalSizeNotMatch("Byte32Reader".to_string(), 32, 31)))
    );
}

#[test]
fn unknown_union_item() {
    let mut bytes = vec![99, 0, 0, 0];
    bytes.extend(ChannelReady { channel_id: hash(1) }.to_molecule_bytes());
    assert_eq!(
        PCNMessage::from_molecule_slice(&bytes),
        Err(molecule_err(VerificationError::UnknownItem("PCNMessageReader".to_string(), 18, 99)))
    );
    assert_eq!(
        RemoveTlcReason::from_molecule_slice(&[2, 0, 0, 0]),
        Err(molecule_err(VerificationError::UnknownItem("RemoveTlcReasonReader".to_string(), 2, 2)))
    );
}

#[test]
fn invalid_public_key_is_a_secp_error() {
    let m = RevokeAndAck { channel_id: hash(1), per_commitment_secret: hash(2), next_per_commitment_point: pubkey(3) };
    let mut bytes = m.to_molecule_bytes();
    let n = bytes.len();
    for b in &mut bytes[n - 33..] {
        *b = 0;
    }
    assert_eq!(RevokeAndAck::check(&bytes), Ok(()));
    assert_eq!(RevokeAndAck::from_molecule_slice(&bytes), Err(Error::Secp(SecpError::InvalidPublicKey)));
}

#[test]
fn invalid_signature_is_a_secp_error() {
    let m = CommitmentSigned { channel_id: hash(1), signature: signature(1) };
    let mut bytes = m.to_molecule_bytes();
    let n = bytes.len();
    for b in &mut bytes[n - 64..] {
        *b = 0xff;
    }
    assert_eq!(CommitmentSigned::from_molecule_slice(&bytes), Err(Error::Secp(SecpError::InvalidSignature)));
}

#[test]
fn invalid_nonce_is_a_musig2_error() {
    let mut bytes = accept_channel().to_molecule_bytes();
    let n = bytes.len();
    bytes[n - 66] = 0x09;
    let text = format!(
        "{}",
        <musig2::PubNonce as musig2::BinaryEncoding>::from_bytes(&bytes[n - 66..]).unwrap_err()
    );
    assert_eq!(AcceptChannel::from_molecule_slice(&bytes), Err(Error::Musig2(text.clone())));
    let mut wire = vec![2, 0, 0, 0];
    wire.extend(&bytes);
    assert_eq!(PCNMessage::from_molecule_slice(&wire), Err(Error::Musig2(text)));
}

#[test]
fn bad_script_is_refused_by_ckb_types() {
    let m = Shutdown { channel_id: hash(1), close_script: script() };
    let mut bytes = m.to_molecule_bytes();
    let n = bytes.len();
    let script_len = packed::Script::default().as_slice().len();
    bytes[n - script_len] = bytes[n - script_len].wrapping_add(1);
    assert!(matches!(
        Shutdown::from_molecule_slice(&bytes),
        Err(Error::Molecule(VerificationError::TotalSizeNotMatch(_, _, _)))
    ));
    assert!(Script::from_slice(&[1, 2, 3]).is_err());
    assert!(Transaction::from_slice(&[0, 0, 0, 0]).is_err());
}

#[test]
fn remove_tlc_reason_roundtrip() {
    let a = RemoveTlcReason::RemoveTlcFulfill(RemoveTlcFulfill { payment_preimage: hash(9) });
    let b = RemoveTlcReason::RemoveTlcFail(RemoveTlcFail { error_code: 7 });
    for r in [a, b] {
        let bytes = r.to_molecule_bytes();
        assert_eq!(RemoveTlcReason::from_molecule_slice(&bytes), Ok(r.clone()));
    }
}

#[test]
fn decoded_bytes_encode_back_to_themselves() {
    let witnesses = packed::BytesVec::new_builder()
        .set(vec![[7u8, 8].as_slice().pack(), Vec::<u8>::new().as_slice().pack()])
        .build();
    let bytes = table(&[vec![4u8; 32], vec![5u8; 32], witnesses.as_slice().to_vec()]);
    let m = TxSignatures::from_molecule_slice(&bytes).unwrap();
    assert_eq!(m.witnesses, vec![vec![7u8, 8], vec![]]);
    assert_eq!(m.to_molecule_bytes(), bytes);

    let mut wire = vec![4, 0, 0, 0];
    wire.extend(&bytes);
    let p = PCNMessage::from_molecule_slice(&wire).unwrap();
    assert_eq!(p.to_molecule_bytes(), wire);

    let fail = vec![1u8, 0, 0, 0, 12, 0, 0, 0, 8, 0, 0, 0, 9, 0, 0, 0];
    let r = RemoveTlcReason::from_molecule_slice(&fail).unwrap();
    assert_eq!(r, RemoveTlcReason::RemoveTlcFail(RemoveTlcFail { error_code: 9 }));
    assert_eq!(r.to_molecule_bytes(), fail);
}
