//! The wire messages of the payment channel network protocol and their molecule
//! encoding: each message is a molecule table of its fields, and a message on
//! the wire is the union of all of them.
use vstd::prelude::*;

use crate::ckb::{ckb_script_check, ckb_transaction_check, Script, Transaction};
use crate::error::{Error, SpecError};
use crate::fields::{
    byte_check, byte_field, bytes_bytes, bytes_check, bytes_field, bytes_value, bytes_vec_bytes,
    bytes_vec_check, bytes_vec_field, bytes_vec_fits, bytes_vec_value, check_byte, check_bytes,
    check_bytes_vec, check_hash, check_nonce, check_pubkey, check_script, check_script_opt,
    check_signature, check_signature_vec, check_transaction, check_u32, check_u64, hash_check,
    hash_field, lemma_byte_canonical, lemma_bytes_canonical, lemma_bytes_field,
    lemma_bytes_vec_canonical, lemma_bytes_vec_field, lemma_concat_len_le, lemma_number_of_prefix,
    lemma_bytes_value_fits, lemma_bytes_vec_value_fits, lemma_signature_vec_canonical,
    lemma_signature_vec_field, lemma_signature_vec_value_wf, lemma_u32_canonical, lemma_u32_field,
    lemma_u64_canonical, lemma_u64_field,
    nonce_check, nonce_field, nonce_value, pubkey_check, pubkey_field, pubkey_value, read_bytes,
    read_bytes_vec, read_hash, read_nonce, read_pubkey, read_script, read_script_opt,
    read_signature, read_signature_vec, read_transaction, read_u32, read_u64, result_view,
    script_field, script_opt_bytes, script_opt_check, script_opt_field, script_opt_value,
    script_opt_view, signature_check, signature_field, signature_value, signature_vec_bytes,
    signature_vec_check, signature_vec_field, signature_vec_value, signature_views, then_convert,
    transaction_field, u32_bytes, u32_check, u32_field, u32_value, u64_bytes, u64_check,
    u64_field, u64_value,
};
use crate::keys::{
    musig2_pub_nonce_valid, secp_compact_signature_valid, secp_public_key_valid, Hash256,
    PubNonce, Pubkey, Signature,
};
use crate::le::{le_bytes, lemma_le_bytes_len, lemma_le_bytes_of_value, lemma_pow256_values, push_le};
use crate::molecule::{
    and_then, append_bytes, check_table_layout, check_view, concat, field_at, fields_of,
    lemma_numbers_bytes_len, lemma_table_bytes_accepted, lemma_table_canonical, number_at, read_number, table_bytes, table_header, table_layout,
    views, write_table, SpecVerificationError, VerificationError,
};

verus! {
/// A message for testing the connection: opaque bytes.
#[derive(Clone, Debug, PartialEq, Eq)]
pub struct TestMessage {
    pub bytes: Vec<u8>,
}

/// The mathematical value of a [`TestMessage`].
pub struct SpecTestMessage {
    pub bytes: Seq<u8>,
}

impl View for TestMessage {
    type V = SpecTestMessage;

    open spec fn view(&self) -> SpecTestMessage {
        SpecTestMessage {
            bytes: self.bytes@,
        }
    }
}

impl TestMessage {
    /// The molecule bytes of each field, in order.
    pub open spec fn spec_fields(v: SpecTestMessage) -> Seq<Seq<u8>> {
        seq![
            bytes_bytes(v.bytes),
        ]
    }

    /// The molecule bytes of the message.
    pub open spec fn spec_bytes(v: SpecTestMessage) -> Seq<u8> {
        table_bytes(Self::spec_fields(v))
    }

    /// Every key, signature, nonce and script of the message is one that
    /// its library accepts, and every length fits its four-byte header.
    pub open spec fn spec_wf(v: SpecTestMessage) -> bool {
        &&& v.bytes.len() < 0x1_0000_0000
    }

    /// The message fits the four-byte total size of molecule.
    pub open spec fn spec_fits(v: SpecTestMessage) -> bool {
        Self::spec_bytes(v).len() < 0x1_0000_0000
    }

    pub open spec fn wf(&self) -> bool {
        Self::spec_wf(self@) && Self::spec_fits(self@)
    }

    /// What molecule's `TestMessageReader` says of the bytes.
    pub open spec fn spec_check(b: Seq<u8>) -> Result<(), SpecVerificationError> {
        match table_layout("TestMessageReader"@, b, 1) {
            Err(e) => Err(e),
            Ok(_) => bytes_check(field_at(b, 1, 0)),
        }
    }

    /// The message in checked bytes, or the first key, signature or nonce
    /// that does not parse.
    pub open spec fn spec_convert(b: Seq<u8>) -> Result<SpecTestMessage, SpecError> {
        Ok(SpecTestMessage { bytes: bytes_value(field_at(b, 1, 0)) })
    }

    /// What decoding the bytes gives: molecule checks the whole message
    /// first, then each key, signature and nonce is parsed in order.
    pub open spec fn spec_decode(b: Seq<u8>) -> Result<SpecTestMessage, SpecError> {
        then_convert(Self::spec_check(b), Self::spec_convert(b))
    }

    /// The molecule bytes of the message.
    pub fn to_molecule_bytes(&self) -> (r: Vec<u8>)
        ensures
            r@ == Self::spec_bytes(self@),
    {
        let mut fs: Vec<Vec<u8>> = Vec::new();
        fs.push(bytes_field(self.bytes.as_slice()));
        assert(views(fs@) =~= Self::spec_fields(self@));
        write_table(&fs)
    }

    /// Checks the bytes as molecule's `TestMessageReader` does.
    pub fn check(b: &[u8]) -> (r: Result<(), VerificationError>)
        ensures
            check_view(r) == Self::spec_check(b@),
    {
        let os = match check_table_layout("TestMessageReader", b, 1) {
            Ok(os) => os,
            Err(e) => {
                return Err(e);
            },
        };
        assert(os@[0] <= os@[1]);
        let fld0 = &b[os[0]..os[1]];
        match check_bytes(fld0) {
            Ok(()) => {},
            Err(e) => {
                return Err(e);
            },
        }
        Ok(())
    }

    fn convert(b: &[u8]) -> (r: Result<Self, Error>)
        requires
            Self::spec_check(b@) == Ok::<(), SpecVerificationError>(()),
        ensures
            result_view(r) == Self::spec_convert(b@),
    {
        let os = match check_table_layout("TestMessageReader", b, 1) {
            Ok(os) => os,
            Err(e) => {
                return Err(Error::Molecule(e));
            },
        };
        assert(os@[0] <= os@[1]);
        let fld0 = &b[os[0]..os[1]];
        let bytes = read_bytes(fld0);
        Ok(TestMessage { bytes })
    }

    /// Decodes the message from its molecule bytes.
    pub fn from_molecule_slice(data: &[u8]) -> (r: Result<Self, Error>)
        ensures
            result_view(r) == Self::spec_decode(data@),
            r matches Ok(m) ==> m.wf(),
    {
        let r = match Self::check(data) {
            Ok(()) => Self::convert(data),
            Err(e) => Err(Error::Molecule(e)),
        };
        proof {
            match &r {
                Ok(m) => Self::lemma_decoded_wf(data@, m@),
                Err(_) => {},
            }
        }
        r
    }

    /// Decoding the bytes of a well-formed message gives the message back.
    pub proof fn lemma_roundtrip(v: SpecTestMessage)
        requires
            Self::spec_wf(v),
            Self::spec_fits(v),
        ensures
            Self::spec_decode(Self::spec_bytes(v)) == Ok::<SpecTestMessage, SpecError>(v),
    {
        let fs = Self::spec_fields(v);
        let b = Self::spec_bytes(v);
        lemma_bytes_field(v.bytes);
        lemma_table_bytes_accepted("TestMessageReader"@, fs);
        assert(field_at(b, 1, 0) == fs[0]);
        assert(Self::spec_convert(b) == Ok::<SpecTestMessage, SpecError>(v));
    }

    /// Decoding accepts only the bytes that encoding writes: bytes that
    /// decode to a message are that message's bytes.
    pub proof fn lemma_canonical(b: Seq<u8>, v: SpecTestMessage)
        requires
            Self::spec_decode(b) == Ok::<SpecTestMessage, SpecError>(v),
        ensures
            Self::spec_bytes(v) == b,
    {
        lemma_table_canonical("TestMessageReader"@, b, 1);
        lemma_bytes_canonical(field_at(b, 1, 0));
        assert(Self::spec_fields(v) =~= fields_of(b, 1));
    }

    /// Every message that decoding gives is well formed, and so encodes to
    /// bytes that decode to it again.
    pub proof fn lemma_decoded_wf(b: Seq<u8>, v: SpecTestMessage)
        requires
            Self::spec_decode(b) == Ok::<SpecTestMessage, SpecError>(v),
        ensures
            Self::spec_wf(v),
            Self::spec_fits(v),
    {
        Self::lemma_canonical(b, v);
        lemma_le_bytes_of_value(b.subrange(0, 4));
        lemma_pow256_values();
        lemma_bytes_value_fits(field_at(b, 1, 0));
    }

    /// The wire layout of a well-formed message: a table of exactly 1
    /// fields, which hold, in this order, `bytes`.
    pub proof fn lemma_layout(v: SpecTestMessage)
        requires
            Self::spec_wf(v),
            Self::spec_fits(v),
        ensures
            table_layout("TestMessageReader"@, Self::spec_bytes(v), 1) == Ok::<(), SpecVerificationError>(()),
            field_at(Self::spec_bytes(v), 1, 0) == le_bytes(v.bytes.len(), 4) + v.bytes,
    {
        let fs = Self::spec_fields(v);
        let b = Self::spec_bytes(v);
        lemma_table_bytes_accepted("TestMessageReader"@, fs);
        assert(field_at(b, 1, 0) == fs[0]);
    }

    /// What decoding accepts is laid out as the table of the message it
    /// gives: field by field, the bytes are that field of the message.
    pub proof fn lemma_decoded_layout(b: Seq<u8>, v: SpecTestMessage)
        requires
            Self::spec_decode(b) == Ok::<SpecTestMessage, SpecError>(v),
        ensures
            table_layout("TestMessageReader"@, b, 1) == Ok::<(), SpecVerificationError>(()),
            field_at(b, 1, 0) == le_bytes(v.bytes.len(), 4) + v.bytes,
    {
        Self::lemma_canonical(b, v);
        Self::lemma_decoded_wf(b, v);
        Self::lemma_layout(v);
    }
}

/// A request to open a channel, with the opener's parameters and keys.
#[derive(Clone, Debug, PartialEq, Eq)]
pub struct OpenChannel {
    pub chain_hash: Hash256,
    pub channel_id: Hash256,
    pub funding_type_script: Option<Script>,
    pub funding_amount: u64,
    pub funding_fee_rate: u64,
    pub commitment_fee_rate: u64,
    pub max_tlc_value_in_flight: u64,
    pub max_accept_tlcs: u64,
    pub min_tlc_value: u64,
    pub to_self_delay: u64,
    pub funding_pubkey: Pubkey,
    pub revocation_basepoint: Pubkey,
    pub payment_basepoint: Pubkey,
    pub delayed_payment_basepoint: Pubkey,
    pub tlc_basepoint: Pubkey,
    pub first_per_commitment_point: Pubkey,
    pub second_per_commitment_point: Pubkey,
    pub next_local_nonce: PubNonce,
    pub channel_flags: u8,
}

/// The mathematical value of a [`OpenChannel`].
pub struct SpecOpenChannel {
    pub chain_hash: Seq<u8>,
    pub channel_id: Seq<u8>,
    pub funding_type_script: Option<Seq<u8>>,
    pub funding_amount: u64,
    pub funding_fee_rate: u64,
    pub commitment_fee_rate: u64,
    pub max_tlc_value_in_flight: u64,
    pub max_accept_tlcs: u64,
    pub min_tlc_value: u64,
    pub to_self_delay: u64,
    pub funding_pubkey: Seq<u8>,
    pub revocation_basepoint: Seq<u8>,
    pub payment_basepoint: Seq<u8>,
    pub delayed_payment_basepoint: Seq<u8>,
    pub tlc_basepoint: Seq<u8>,
    pub first_per_commitment_point: Seq<u8>,
    pub second_per_commitment_point: Seq<u8>,
    pub next_local_nonce: Seq<u8>,
    pub channel_flags: u8,
}

impl View for OpenChannel {
    type V = SpecOpenChannel;

    open spec fn view(&self) -> SpecOpenChannel {
        SpecOpenChannel {
            chain_hash: self.chain_hash@,
            channel_id: self.channel_id@,
            funding_type_script: script_opt_view(self.funding_type_script),
            funding_amount: self.funding_amount,
            funding_fee_rate: self.funding_fee_rate,
            commitment_fee_rate: self.commitment_fee_rate,
            max_tlc_value_in_flight: self.max_tlc_value_in_flight,
            max_accept_tlcs: self.max_accept_tlcs,
            min_tlc_value: self.min_tlc_value,
            to_self_delay: self.to_self_delay,
            funding_pubkey: self.funding_pubkey@,
            revocation_basepoint: self.revocation_basepoint@,
            payment_basepoint: self.payment_basepoint@,
            delayed_payment_basepoint: self.delayed_payment_basepoint@,
            tlc_basepoint: self.tlc_basepoint@,
            first_per_commitment_point: self.first_per_commitment_point@,
            second_per_commitment_point: self.second_per_commitment_point@,
            next_local_nonce: self.next_local_nonce@,
            channel_flags: self.channel_flags,
        }
    }
}

impl OpenChannel {
    /// The molecule bytes of each field, in order.
    pub open spec fn spec_fields(v: SpecOpenChannel) -> Seq<Seq<u8>> {
        seq![
            v.chain_hash,
            v.channel_id,
            script_opt_bytes(v.funding_type_script),
            u64_bytes(v.funding_amount),
            u64_bytes(v.funding_fee_rate),
            u64_bytes(v.commitment_fee_rate),
            u64_bytes(v.max_tlc_value_in_flight),
            u64_bytes(v.max_accept_tlcs),
            u64_bytes(v.min_tlc_value),
            u64_bytes(v.to_self_delay),
            v.funding_pubkey,
            v.revocation_basepoint,
            v.payment_basepoint,
            v.delayed_payment_basepoint,
            v.tlc_basepoint,
            v.first_per_commitment_point,
            v.second_per_commitment_point,
            v.next_local_nonce,
            seq![v.channel_flags],
        ]
    }

    /// The molecule bytes of the message.
    pub open spec fn spec_bytes(v: SpecOpenChannel) -> Seq<u8> {
        table_bytes(Self::spec_fields(v))
    }

    /// Every key, signature, nonce and script of the message is one that
    /// its library accepts, and every length fits its four-byte header.
    pub open spec fn spec_wf(v: SpecOpenChannel) -> bool {
        &&& v.chain_hash.len() == 32
        &&& v.channel_id.len() == 32
        &&& (v.funding_type_script matches Some(s) ==> ckb_script_check(s) is Ok && s.len() > 0)
        &&& v.funding_pubkey.len() == 33 && secp_public_key_valid(v.funding_pubkey)
        &&& v.revocation_basepoint.len() == 33 && secp_public_key_valid(v.revocation_basepoint)
        &&& v.payment_basepoint.len() == 33 && secp_public_key_valid(v.payment_basepoint)
        &&& v.delayed_payment_basepoint.len() == 33 && secp_public_key_valid(v.delayed_payment_basepoint)
        &&& v.tlc_basepoint.len() == 33 && secp_public_key_valid(v.tlc_basepoint)
        &&& v.first_per_commitment_point.len() == 33 && secp_public_key_valid(v.first_per_commitment_point)
        &&& v.second_per_commitment_point.len() == 33 && secp_public_key_valid(v.second_per_commitment_point)
        &&& v.next_local_nonce.len() == 66 && musig2_pub_nonce_valid(v.next_local_nonce)
    }

    /// The message fits the four-byte total size of molecule.
    pub open spec fn spec_fits(v: SpecOpenChannel) -> bool {
        Self::spec_bytes(v).len() < 0x1_0000_0000
    }

    pub open spec fn wf(&self) -> bool {
        Self::spec_wf(self@) && Self::spec_fits(self@)
    }

    /// What molecule's `OpenChannelReader` says of the bytes.
    pub open spec fn spec_check(b: Seq<u8>) -> Result<(), SpecVerificationError> {
        match table_layout("OpenChannelReader"@, b, 19) {
            Err(e) => Err(e),
            Ok(_) => and_then(
                hash_check(field_at(b, 19, 0)),
                and_then(
                hash_check(field_at(b, 19, 1)),
                and_then(
                script_opt_check(field_at(b, 19, 2)),
                and_then(
                u64_check(field_at(b, 19, 3)),
                and_then(
                u64_check(field_at(b, 19, 4)),
                and_then(
                u64_check(field_at(b, 19, 5)),
                and_then(
                u64_check(field_at(b, 19, 6)),
                and_then(
                u64_check(field_at(b, 19, 7)),
                and_then(
                u64_check(field_at(b, 19, 8)),
                and_then(
                u64_check(field_at(b, 19, 9)),
                and_then(
                pubkey_check(field_at(b, 19, 10)),
                and_then(
                pubkey_check(field_at(b, 19, 11)),
                and_then(
                pubkey_check(field_at(b, 19, 12)),
                and_then(
                pubkey_check(field_at(b, 19, 13)),
                and_then(
                pubkey_check(field_at(b, 19, 14)),
                and_then(
                pubkey_check(field_at(b, 19, 15)),
                and_then(
                pubkey_check(field_at(b, 19, 16)),
                and_then(
                nonce_check(field_at(b, 19, 17)),
                byte_check(field_at(b, 19, 18)),
            ),
            ),
            ),
            ),
            ),
            ),
            ),
            ),
            ),
            ),
            ),
            ),
            ),
            ),
            ),
            ),
            ),
            ),
        }
    }

    /// The message in checked bytes, or the first key, signature or nonce
    /// that does not parse.
    pub open spec fn spec_convert(b: Seq<u8>) -> Result<SpecOpenChannel, SpecError> {
        match pubkey_value(field_at(b, 19, 10)) {
            Err(e) => Err(e),
            Ok(funding_pubkey) => match pubkey_value(field_at(b, 19, 11)) {
                Err(e) => Err(e),
                Ok(revocation_basepoint) => match pubkey_value(field_at(b, 19, 12)) {
                    Err(e) => Err(e),
                    Ok(payment_basepoint) => match pubkey_value(field_at(b, 19, 13)) {
                        Err(e) => Err(e),
                        Ok(delayed_payment_basepoint) => match pubkey_value(field_at(b, 19, 14)) {
                            Err(e) => Err(e),
                            Ok(tlc_basepoint) => match pubkey_value(field_at(b, 19, 15)) {
                                Err(e) => Err(e),
                                Ok(first_per_commitment_point) => match pubkey_value(field_at(b, 19, 16)) {
                                    Err(e) => Err(e),
                                    Ok(second_per_commitment_point) => match nonce_value(field_at(b, 19, 17)) {
                                        Err(e) => Err(e),
                                        Ok(next_local_nonce) => Ok(SpecOpenChannel { chain_hash: field_at(b, 19, 0), channel_id: field_at(b, 19, 1), funding_type_script: script_opt_value(field_at(b, 19, 2)), funding_amount: u64_value(field_at(b, 19, 3)), funding_fee_rate: u64_value(field_at(b, 19, 4)), commitment_fee_rate: u64_value(field_at(b, 19, 5)), max_tlc_value_in_flight: u64_value(field_at(b, 19, 6)), max_accept_tlcs: u64_value(field_at(b, 19, 7)), min_tlc_value: u64_value(field_at(b, 19, 8)), to_self_delay: u64_value(field_at(b, 19, 9)), funding_pubkey: funding_pubkey, revocation_basepoint: revocation_basepoint, payment_basepoint: payment_basepoint, delayed_payment_basepoint: delayed_payment_basepoint, tlc_basepoint: tlc_basepoint, first_per_commitment_point: first_per_commitment_point, second_per_commitment_point: second_per_commitment_point, next_local_nonce: next_local_nonce, channel_flags: field_at(b, 19, 18)[0] }),
                                    },
                                },
                            },
                        },
                    },
                },
            },
        }
    }

    /// What decoding the bytes gives: molecule checks the whole message
    /// first, then each key, signature and nonce is parsed in order.
    pub open spec fn spec_decode(b: Seq<u8>) -> Result<SpecOpenChannel, SpecError> {
        then_convert(Self::spec_check(b), Self::spec_convert(b))
    }

    /// The molecule bytes of the message.
    pub fn to_molecule_bytes(&self) -> (r: Vec<u8>)
        ensures
            r@ == Self::spec_bytes(self@),
    {
        let mut fs: Vec<Vec<u8>> = Vec::new();
        fs.push(hash_field(&self.chain_hash));
        fs.push(hash_field(&self.channel_id));
        fs.push(script_opt_field(&self.funding_type_script));
        fs.push(u64_field(self.funding_amount));
        fs.push(u64_field(self.funding_fee_rate));
        fs.push(u64_field(self.commitment_fee_rate));
        fs.push(u64_field(self.max_tlc_value_in_flight));
        fs.push(u64_field(self.max_accept_tlcs));
        fs.push(u64_field(self.min_tlc_value));
        fs.push(u64_field(self.to_self_delay));
        fs.push(pubkey_field(&self.funding_pubkey));
        fs.push(pubkey_field(&self.revocation_basepoint));
        fs.push(pubkey_field(&self.payment_basepoint));
        fs.push(pubkey_field(&self.delayed_payment_basepoint));
        fs.push(pubkey_field(&self.tlc_basepoint));
        fs.push(pubkey_field(&self.first_per_commitment_point));
        fs.push(pubkey_field(&self.second_per_commitment_point));
        fs.push(nonce_field(&self.next_local_nonce));
        fs.push(byte_field(self.channel_flags));
        assert(views(fs@) =~= Self::spec_fields(self@));
        write_table(&fs)
    }

    /// Checks the bytes as molecule's `OpenChannelReader` does.
    pub fn check(b: &[u8]) -> (r: Result<(), VerificationError>)
        ensures
            check_view(r) == Self::spec_check(b@),
    {
        let os = match check_table_layout("OpenChannelReader", b, 19) {
            Ok(os) => os,
            Err(e) => {
                return Err(e);
            },
        };
        assert(os@[0] <= os@[1]);
        assert(os@[1] <= os@[2]);
        assert(os@[2] <= os@[3]);
        assert(os@[3] <= os@[4]);
        assert(os@[4] <= os@[5]);
        assert(os@[5] <= os@[6]);
        assert(os@[6] <= os@[7]);
        assert(os@[7] <= os@[8]);
        assert(os@[8] <= os@[9]);
        assert(os@[9] <= os@[10]);
        assert(os@[10] <= os@[11]);
        assert(os@[11] <= os@[12]);
        assert(os@[12] <= os@[13]);
        assert(os@[13] <= os@[14]);
        assert(os@[14] <= os@[15]);
        assert(os@[15] <= os@[16]);
        assert(os@[16] <= os@[17]);
        assert(os@[17] <= os@[18]);
        assert(os@[18] <= os@[19]);
        let fld0 = &b[os[0]..os[1]];
        let fld1 = &b[os[1]..os[2]];
        let fld2 = &b[os[2]..os[3]];
        let fld3 = &b[os[3]..os[4]];
        let fld4 = &b[os[4]..os[5]];
        let fld5 = &b[os[5]..os[6]];
        let fld6 = &b[os[6]..os[7]];
        let fld7 = &b[os[7]..os[8]];
        let fld8 = &b[os[8]..os[9]];
        let fld9 = &b[os[9]..os[10]];
        let fld10 = &b[os[10]..os[11]];
        let fld11 = &b[os[11]..os[12]];
        let fld12 = &b[os[12]..os[13]];
        let fld13 = &b[os[13]..os[14]];
        let fld14 = &b[os[14]..os[15]];
        let fld15 = &b[os[15]..os[16]];
        let fld16 = &b[os[16]..os[17]];
        let fld17 = &b[os[17]..os[18]];
        let fld18 = &b[os[18]..os[19]];
        match check_hash(fld0) {
            Ok(()) => {},
            Err(e) => {
                return Err(e);
            },
        }
        match check_hash(fld1) {
            Ok(()) => {},
            Err(e) => {
                return Err(e);
            },
        }
        match check_script_opt(fld2) {
            Ok(()) => {},
            Err(e) => {
                return Err(e);
            },
        }
        match check_u64(fld3) {
            Ok(()) => {},
            Err(e) => {
                return Err(e);
            },
        }
        match check_u64(fld4) {
            Ok(()) => {},
            Err(e) => {
                return Err(e);
            },
        }
        match check_u64(fld5) {
            Ok(()) => {},
            Err(e) => {
                return Err(e);
            },
        }
        match check_u64(fld6) {
            Ok(()) => {},
            Err(e) => {
                return Err(e);
            },
        }
        match check_u64(fld7) {
            Ok(()) => {},
            Err(e) => {
                return Err(e);
            },
        }
        match check_u64(fld8) {
            Ok(()) => {},
            Err(e) => {
                return Err(e);
            },
        }
        match check_u64(fld9) {
            Ok(()) => {},
            Err(e) => {
                return Err(e);
            },
        }
        match check_pubkey(fld10) {
            Ok(()) => {},
            Err(e) => {
                return Err(e);
            },
        }
        match check_pubkey(fld11) {
            Ok(()) => {},
            Err(e) => {
                return Err(e);
            },
        }
        match check_pubkey(fld12) {
            Ok(()) => {},
            Err(e) => {
                return Err(e);
            },
        }
        match check_pubkey(fld13) {
            Ok(()) => {},
            Err(e) => {
                return Err(e);
            },
        }
        match check_pubkey(fld14) {
            Ok(()) => {},
            Err(e) => {
                return Err(e);
            },
        }
        match check_pubkey(fld15) {
            Ok(()) => {},
            Err(e) => {
                return Err(e);
            },
        }
        match check_pubkey(fld16) {
            Ok(()) => {},
            Err(e) => {
                return Err(e);
            },
        }
        match check_nonce(fld17) {
            Ok(()) => {},
            Err(e) => {
                return Err(e);
            },
        }
        match check_byte(fld18) {
            Ok(()) => {},
            Err(e) => {
                return Err(e);
            },
        }
        Ok(())
    }

    #[verifier::rlimit(60)]
    fn convert(b: &[u8]) -> (r: Result<Self, Error>)
        requires
            Self::spec_check(b@) == Ok::<(), SpecVerificationError>(()),
        ensures
            result_view(r) == Self::spec_convert(b@),
    {
        let os = match check_table_layout("OpenChannelReader", b, 19) {
            Ok(os) => os,
            Err(e) => {
                return Err(Error::Molecule(e));
            },
        };
        assert(os@[0] <= os@[1]);
        assert(os@[1] <= os@[2]);
        assert(os@[2] <= os@[3]);
        assert(os@[3] <= os@[4]);
        assert(os@[4] <= os@[5]);
        assert(os@[5] <= os@[6]);
        assert(os@[6] <= os@[7]);
        assert(os@[7] <= os@[8]);
        assert(os@[8] <= os@[9]);
        assert(os@[9] <= os@[10]);
        assert(os@[10] <= os@[11]);
        assert(os@[11] <= os@[12]);
        assert(os@[12] <= os@[13]);
        assert(os@[13] <= os@[14]);
        assert(os@[14] <= os@[15]);
        assert(os@[15] <= os@[16]);
        assert(os@[16] <= os@[17]);
        assert(os@[17] <= os@[18]);
        assert(os@[18] <= os@[19]);
        let fld0 = &b[os[0]..os[1]];
        let fld1 = &b[os[1]..os[2]];
        let fld2 = &b[os[2]..os[3]];
        let fld3 = &b[os[3]..os[4]];
        let fld4 = &b[os[4]..os[5]];
        let fld5 = &b[os[5]..os[6]];
        let fld6 = &b[os[6]..os[7]];
        let fld7 = &b[os[7]..os[8]];
        let fld8 = &b[os[8]..os[9]];
        let fld9 = &b[os[9]..os[10]];
        let fld10 = &b[os[10]..os[11]];
        let fld11 = &b[os[11]..os[12]];
        let fld12 = &b[os[12]..os[13]];
        let fld13 = &b[os[13]..os[14]];
        let fld14 = &b[os[14]..os[15]];
        let fld15 = &b[os[15]..os[16]];
        let fld16 = &b[os[16]..os[17]];
        let fld17 = &b[os[17]..os[18]];
        let fld18 = &b[os[18]..os[19]];
        let chain_hash = read_hash(fld0);
        let channel_id = read_hash(fld1);
        let funding_type_script = read_script_opt(fld2);
        let funding_amount = read_u64(fld3);
        let funding_fee_rate = read_u64(fld4);
        let commitment_fee_rate = read_u64(fld5);
        let max_tlc_value_in_flight = read_u64(fld6);
        let max_accept_tlcs = read_u64(fld7);
        let min_tlc_value = read_u64(fld8);
        let to_self_delay = read_u64(fld9);
        let funding_pubkey = match read_pubkey(fld10) {
            Ok(x) => x,
            Err(e) => {
                return Err(e);
            },
        };
        let revocation_basepoint = match read_pubkey(fld11) {
            Ok(x) => x,
            Err(e) => {
                return Err(e);
            },
        };
        let payment_basepoint = match read_pubkey(fld12) {
            Ok(x) => x,
            Err(e) => {
                return Err(e);
            },
        };
        let delayed_payment_basepoint = match read_pubkey(fld13) {
            Ok(x) => x,
            Err(e) => {
                return Err(e);
            },
        };
        let tlc_basepoint = match read_pubkey(fld14) {
            Ok(x) => x,
            Err(e) => {
                return Err(e);
            },
        };
        let first_per_commitment_point = match read_pubkey(fld15) {
            Ok(x) => x,
            Err(e) => {
                return Err(e);
            },
        };
        let second_per_commitment_point = match read_pubkey(fld16) {
            Ok(x) => x,
            Err(e) => {
                return Err(e);
            },
        };
        let next_local_nonce = match read_nonce(fld17) {
            Ok(x) => x,
            Err(e) => {
                return Err(e);
            },
        };
        let channel_flags = fld18[0];
        Ok(OpenChannel { chain_hash, channel_id, funding_type_script, funding_amount, funding_fee_rate, commitment_fee_rate, max_tlc_value_in_flight, max_accept_tlcs, min_tlc_value, to_self_delay, funding_pubkey, revocation_basepoint, payment_basepoint, delayed_payment_basepoint, tlc_basepoint, first_per_commitment_point, second_per_commitment_point, next_local_nonce, channel_flags })
    }

    /// Decodes the message from its molecule bytes.
    pub fn from_molecule_slice(data: &[u8]) -> (r: Result<Self, Error>)
        ensures
            result_view(r) == Self::spec_decode(data@),
            r matches Ok(m) ==> m.wf(),
    {
        let r = match Self::check(data) {
            Ok(()) => Self::convert(data),
            Err(e) => Err(Error::Molecule(e)),
        };
        proof {
            match &r {
                Ok(m) => Self::lemma_decoded_wf(data@, m@),
                Err(_) => {},
            }
        }
        r
    }

    /// Decoding the bytes of a well-formed message gives the message back.
    pub proof fn lemma_roundtrip(v: SpecOpenChannel)
        requires
            Self::spec_wf(v),
            Self::spec_fits(v),
        ensures
            Self::spec_decode(Self::spec_bytes(v)) == Ok::<SpecOpenChannel, SpecError>(v),
    {
        let fs = Self::spec_fields(v);
        let b = Self::spec_bytes(v);
        lemma_u64_field(v.funding_amount);
        lemma_u64_field(v.funding_fee_rate);
        lemma_u64_field(v.commitment_fee_rate);
        lemma_u64_field(v.max_tlc_value_in_flight);
        lemma_u64_field(v.max_accept_tlcs);
        lemma_u64_field(v.min_tlc_value);
        lemma_u64_field(v.to_self_delay);
        lemma_table_bytes_accepted("OpenChannelReader"@, fs);
        assert(field_at(b, 19, 0) == fs[0]);
        assert(field_at(b, 19, 1) == fs[1]);
        assert(field_at(b, 19, 2) == fs[2]);
        assert(field_at(b, 19, 3) == fs[3]);
        assert(field_at(b, 19, 4) == fs[4]);
        assert(field_at(b, 19, 5) == fs[5]);
        assert(field_at(b, 19, 6) == fs[6]);
        assert(field_at(b, 19, 7) == fs[7]);
        assert(field_at(b, 19, 8) == fs[8]);
        assert(field_at(b, 19, 9) == fs[9]);
        assert(field_at(b, 19, 10) == fs[10]);
        assert(field_at(b, 19, 11) == fs[11]);
        assert(field_at(b, 19, 12) == fs[12]);
        assert(field_at(b, 19, 13) == fs[13]);
        assert(field_at(b, 19, 14) == fs[14]);
        assert(field_at(b, 19, 15) == fs[15]);
        assert(field_at(b, 19, 16) == fs[16]);
        assert(field_at(b, 19, 17) == fs[17]);
        assert(field_at(b, 19, 18) == fs[18]);
        assert(Self::spec_convert(b) == Ok::<SpecOpenChannel, SpecError>(v));
    }

    /// Decoding accepts only the bytes that encoding writes: bytes that
    /// decode to a message are that message's bytes.
    #[verifier::rlimit(40)]
    pub proof fn lemma_canonical(b: Seq<u8>, v: SpecOpenChannel)
        requires
            Self::spec_decode(b) == Ok::<SpecOpenChannel, SpecError>(v),
        ensures
            Self::spec_bytes(v) == b,
    {
        lemma_table_canonical("OpenChannelReader"@, b, 19);
        assert(Self::spec_check(b) == Ok::<(), SpecVerificationError>(()));
        assert(Self::spec_convert(b) == Ok::<SpecOpenChannel, SpecError>(v));
        lemma_u64_canonical(field_at(b, 19, 3));
        lemma_u64_canonical(field_at(b, 19, 4));
        lemma_u64_canonical(field_at(b, 19, 5));
        lemma_u64_canonical(field_at(b, 19, 6));
        lemma_u64_canonical(field_at(b, 19, 7));
        lemma_u64_canonical(field_at(b, 19, 8));
        lemma_u64_canonical(field_at(b, 19, 9));
        lemma_byte_canonical(field_at(b, 19, 18));
        assert(Self::spec_fields(v)[0] == field_at(b, 19, 0));
        assert(Self::spec_fields(v)[1] == field_at(b, 19, 1));
        assert(Self::spec_fields(v)[2] == field_at(b, 19, 2));
        assert(Self::spec_fields(v)[3] == field_at(b, 19, 3));
        assert(Self::spec_fields(v)[4] == field_at(b, 19, 4));
        assert(Self::spec_fields(v)[5] == field_at(b, 19, 5));
        assert(Self::spec_fields(v)[6] == field_at(b, 19, 6));
        assert(Self::spec_fields(v)[7] == field_at(b, 19, 7));
        assert(Self::spec_fields(v)[8] == field_at(b, 19, 8));
        assert(Self::spec_fields(v)[9] == field_at(b, 19, 9));
        assert(Self::spec_fields(v)[10] == field_at(b, 19, 10));
        assert(Self::spec_fields(v)[11] == field_at(b, 19, 11));
        assert(Self::spec_fields(v)[12] == field_at(b, 19, 12));
        assert(Self::spec_fields(v)[13] == field_at(b, 19, 13));
        assert(Self::spec_fields(v)[14] == field_at(b, 19, 14));
        assert(Self::spec_fields(v)[15] == field_at(b, 19, 15));
        assert(Self::spec_fields(v)[16] == field_at(b, 19, 16));
        assert(Self::spec_fields(v)[17] == field_at(b, 19, 17));
        assert(Self::spec_fields(v)[18] == field_at(b, 19, 18));
        assert(Self::spec_fields(v) =~= fields_of(b, 19));
    }

    /// Every message that decoding gives is well formed, and so encodes to
    /// bytes that decode to it again.
    #[verifier::rlimit(40)]
    pub proof fn lemma_decoded_wf(b: Seq<u8>, v: SpecOpenChannel)
        requires
            Self::spec_decode(b) == Ok::<SpecOpenChannel, SpecError>(v),
        ensures
            Self::spec_wf(v),
            Self::spec_fits(v),
    {
        Self::lemma_canonical(b, v);
        lemma_le_bytes_of_value(b.subrange(0, 4));
        lemma_pow256_values();
        assert(Self::spec_check(b) == Ok::<(), SpecVerificationError>(()));
        assert(Self::spec_convert(b) == Ok::<SpecOpenChannel, SpecError>(v));
    }

    /// The wire layout of a well-formed message: a table of exactly 19
    /// fields, which hold, in this order, `chain_hash`, `channel_id`, `funding_type_script`, `funding_amount`, `funding_fee_rate`, `commitment_fee_rate`, `max_tlc_value_in_flight`, `max_accept_tlcs`, `min_tlc_value`, `to_self_delay`, `funding_pubkey`, `revocation_basepoint`, `payment_basepoint`, `delayed_payment_basepoint`, `tlc_basepoint`, `first_per_commitment_point`, `second_per_commitment_point`, `next_local_nonce`, `channel_flags`.
    #[verifier::rlimit(40)]
    pub proof fn lemma_layout(v: SpecOpenChannel)
        requires
            Self::spec_wf(v),
            Self::spec_fits(v),
        ensures
            table_layout("OpenChannelReader"@, Self::spec_bytes(v), 19) == Ok::<(), SpecVerificationError>(()),
            field_at(Self::spec_bytes(v), 19, 0) == v.chain_hash,
            field_at(Self::spec_bytes(v), 19, 1) == v.channel_id,
            field_at(Self::spec_bytes(v), 19, 2) == script_opt_bytes(v.funding_type_script),
            field_at(Self::spec_bytes(v), 19, 3) == le_bytes(v.funding_amount as nat, 8),
            field_at(Self::spec_bytes(v), 19, 4) == le_bytes(v.funding_fee_rate as nat, 8),
            field_at(Self::spec_bytes(v), 19, 5) == le_bytes(v.commitment_fee_rate as nat, 8),
            field_at(Self::spec_bytes(v), 19, 6) == le_bytes(v.max_tlc_value_in_flight as nat, 8),
            field_at(Self::spec_bytes(v), 19, 7) == le_bytes(v.max_accept_tlcs as nat, 8),
            field_at(Self::spec_bytes(v), 19, 8) == le_bytes(v.min_tlc_value as nat, 8),
            field_at(Self::spec_bytes(v), 19, 9) == le_bytes(v.to_self_delay as nat, 8),
            field_at(Self::spec_bytes(v), 19, 10) == v.funding_pubkey,
            field_at(Self::spec_bytes(v), 19, 11) == v.revocation_basepoint,
            field_at(Self::spec_bytes(v), 19, 12) == v.payment_basepoint,
            field_at(Self::spec_bytes(v), 19, 13) == v.delayed_payment_basepoint,
            field_at(Self::spec_bytes(v), 19, 14) == v.tlc_basepoint,
            field_at(Self::spec_bytes(v), 19, 15) == v.first_per_commitment_point,
            field_at(Self::spec_bytes(v), 19, 16) == v.second_per_commitment_point,
            field_at(Self::spec_bytes(v), 19, 17) == v.next_local_nonce,
            field_at(Self::spec_bytes(v), 19, 18) == seq![v.channel_flags],
    {
        let fs = Self::spec_fields(v);
        let b = Self::spec_bytes(v);
        lemma_table_bytes_accepted("OpenChannelReader"@, fs);
        assert(field_at(b, 19, 0) == fs[0]);
        assert(field_at(b, 19, 1) == fs[1]);
        assert(field_at(b, 19, 2) == fs[2]);
        assert(field_at(b, 19, 3) == fs[3]);
        assert(field_at(b, 19, 4) == fs[4]);
        assert(field_at(b, 19, 5) == fs[5]);
        assert(field_at(b, 19, 6) == fs[6]);
        assert(field_at(b, 19, 7) == fs[7]);
        assert(field_at(b, 19, 8) == fs[8]);
        assert(field_at(b, 19, 9) == fs[9]);
        assert(field_at(b, 19, 10) == fs[10]);
        assert(field_at(b, 19, 11) == fs[11]);
        assert(field_at(b, 19, 12) == fs[12]);
        assert(field_at(b, 19, 13) == fs[13]);
        assert(field_at(b, 19, 14) == fs[14]);
        assert(field_at(b, 19, 15) == fs[15]);
        assert(field_at(b, 19, 16) == fs[16]);
        assert(field_at(b, 19, 17) == fs[17]);
        assert(field_at(b, 19, 18) == fs[18]);
    }

    /// What decoding accepts is laid out as the table of the message it
    /// gives: field by field, the bytes are that field of the message.
    pub proof fn lemma_decoded_layout(b: Seq<u8>, v: SpecOpenChannel)
        requires
            Self::spec_decode(b) == Ok::<SpecOpenChannel, SpecError>(v),
        ensures
            table_layout("OpenChannelReader"@, b, 19) == Ok::<(), SpecVerificationError>(()),
            field_at(b, 19, 0) == v.chain_hash,
            field_at(b, 19, 1) == v.channel_id,
            field_at(b, 19, 2) == script_opt_bytes(v.funding_type_script),
            field_at(b, 19, 3) == le_bytes(v.funding_amount as nat, 8),
            field_at(b, 19, 4) == le_bytes(v.funding_fee_rate as nat, 8),
            field_at(b, 19, 5) == le_bytes(v.commitment_fee_rate as nat, 8),
            field_at(b, 19, 6) == le_bytes(v.max_tlc_value_in_flight as nat, 8),
            field_at(b, 19, 7) == le_bytes(v.max_accept_tlcs as nat, 8),
            field_at(b, 19, 8) == le_bytes(v.min_tlc_value as nat, 8),
            field_at(b, 19, 9) == le_bytes(v.to_self_delay as nat, 8),
            field_at(b, 19, 10) == v.funding_pubkey,
            field_at(b, 19, 11) == v.revocation_basepoint,
            field_at(b, 19, 12) == v.payment_basepoint,
            field_at(b, 19, 13) == v.delayed_payment_basepoint,
            field_at(b, 19, 14) == v.tlc_basepoint,
            field_at(b, 19, 15) == v.first_per_commitment_point,
            field_at(b, 19, 16) == v.second_per_commitment_point,
            field_at(b, 19, 17) == v.next_local_nonce,
            field_at(b, 19, 18) == seq![v.channel_flags],
    {
        Self::lemma_canonical(b, v);
        Self::lemma_decoded_wf(b, v);
        Self::lemma_layout(v);
    }
}

/// The answer to an `OpenChannel`, with the acceptor's parameters and keys.
#[derive(Clone, Debug, PartialEq, Eq)]
pub struct AcceptChannel {
    pub channel_id: Hash256,
    pub funding_amount: u64,
    pub max_tlc_value_in_flight: u64,
    pub max_accept_tlcs: u64,
    pub min_tlc_value: u64,
    pub to_self_delay: u64,
    pub funding_pubkey: Pubkey,
    pub revocation_basepoint: Pubkey,
    pub payment_basepoint: Pubkey,
    pub delayed_payment_basepoint: Pubkey,
    pub tlc_basepoint: Pubkey,
    pub first_per_commitment_point: Pubkey,
    pub second_per_commitment_point: Pubkey,
    pub next_local_nonce: PubNonce,
}

/// The mathematical value of a [`AcceptChannel`].
pub struct SpecAcceptChannel {
    pub channel_id: Seq<u8>,
    pub funding_amount: u64,
    pub max_tlc_value_in_flight: u64,
    pub max_accept_tlcs: u64,
    pub min_tlc_value: u64,
    pub to_self_delay: u64,
    pub funding_pubkey: Seq<u8>,
    pub revocation_basepoint: Seq<u8>,
    pub payment_basepoint: Seq<u8>,
    pub delayed_payment_basepoint: Seq<u8>,
    pub tlc_basepoint: Seq<u8>,
    pub first_per_commitment_point: Seq<u8>,
    pub second_per_commitment_point: Seq<u8>,
    pub next_local_nonce: Seq<u8>,
}

impl View for AcceptChannel {
    type V = SpecAcceptChannel;

    open spec fn view(&self) -> SpecAcceptChannel {
        SpecAcceptChannel {
            channel_id: self.channel_id@,
            funding_amount: self.funding_amount,
            max_tlc_value_in_flight: self.max_tlc_value_in_flight,
            max_accept_tlcs: self.max_accept_tlcs,
            min_tlc_value: self.min_tlc_value,
            to_self_delay: self.to_self_delay,
            funding_pubkey: self.funding_pubkey@,
            revocation_basepoint: self.revocation_basepoint@,
            payment_basepoint: self.payment_basepoint@,
            delayed_payment_basepoint: self.delayed_payment_basepoint@,
            tlc_basepoint: self.tlc_basepoint@,
            first_per_commitment_point: self.first_per_commitment_point@,
            second_per_commitment_point: self.second_per_commitment_point@,
            next_local_nonce: self.next_local_nonce@,
        }
    }
}

impl AcceptChannel {
    /// The molecule bytes of each field, in order.
    pub open spec fn spec_fields(v: SpecAcceptChannel) -> Seq<Seq<u8>> {
        seq![
            v.channel_id,
            u64_bytes(v.funding_amount),
            u64_bytes(v.max_tlc_value_in_flight),
            u64_bytes(v.max_accept_tlcs),
            u64_bytes(v.min_tlc_value),
            u64_bytes(v.to_self_delay),
            v.funding_pubkey,
            v.revocation_basepoint,
            v.payment_basepoint,
            v.delayed_payment_basepoint,
            v.tlc_basepoint,
            v.first_per_commitment_point,
            v.second_per_commitment_point,
            v.next_local_nonce,
        ]
    }

    /// The molecule bytes of the message.
    pub open spec fn spec_bytes(v: SpecAcceptChannel) -> Seq<u8> {
        table_bytes(Self::spec_fields(v))
    }

    /// Every key, signature, nonce and script of the message is one that
    /// its library accepts, and every length fits its four-byte header.
    pub open spec fn spec_wf(v: SpecAcceptChannel) -> bool {
        &&& v.channel_id.len() == 32
        &&& v.funding_pubkey.len() == 33 && secp_public_key_valid(v.funding_pubkey)
        &&& v.revocation_basepoint.len() == 33 && secp_public_key_valid(v.revocation_basepoint)
        &&& v.payment_basepoint.len() == 33 && secp_public_key_valid(v.payment_basepoint)
        &&& v.delayed_payment_basepoint.len() == 33 && secp_public_key_valid(v.delayed_payment_basepoint)
        &&& v.tlc_basepoint.len() == 33 && secp_public_key_valid(v.tlc_basepoint)
        &&& v.first_per_commitment_point.len() == 33 && secp_public_key_valid(v.first_per_commitment_point)
        &&& v.second_per_commitment_point.len() == 33 && secp_public_key_valid(v.second_per_commitment_point)
        &&& v.next_local_nonce.len() == 66 && musig2_pub_nonce_valid(v.next_local_nonce)
    }

    /// The message fits the four-byte total size of molecule.
    pub open spec fn spec_fits(v: SpecAcceptChannel) -> bool {
        true
    }

    pub open spec fn wf(&self) -> bool {
        Self::spec_wf(self@) && Self::spec_fits(self@)
    }

    /// What molecule's `AcceptChannelReader` says of the bytes.
    pub open spec fn spec_check(b: Seq<u8>) -> Result<(), SpecVerificationError> {
        match table_layout("AcceptChannelReader"@, b, 14) {
            Err(e) => Err(e),
            Ok(_) => and_then(
                hash_check(field_at(b, 14, 0)),
                and_then(
                u64_check(field_at(b, 14, 1)),
                and_then(
                u64_check(field_at(b, 14, 2)),
                and_then(
                u64_check(field_at(b, 14, 3)),
                and_then(
                u64_check(field_at(b, 14, 4)),
                and_then(
                u64_check(field_at(b, 14, 5)),
                and_then(
                pubkey_check(field_at(b, 14, 6)),
                and_then(
                pubkey_check(field_at(b, 14, 7)),
                and_then(
                pubkey_check(field_at(b, 14, 8)),
                and_then(
                pubkey_check(field_at(b, 14, 9)),
                and_then(
                pubkey_check(field_at(b, 14, 10)),
                and_then(
                pubkey_check(field_at(b, 14, 11)),
                and_then(
                pubkey_check(field_at(b, 14, 12)),
                nonce_check(field_at(b, 14, 13)),
            ),
            ),
            ),
            ),
            ),
            ),
            ),
            ),
            ),
            ),
            ),
            ),
            ),
        }
    }

    /// The message in checked bytes, or the first key, signature or nonce
    /// that does not parse.
    pub open spec fn spec_convert(b: Seq<u8>) -> Result<SpecAcceptChannel, SpecError> {
        match pubkey_value(field_at(b, 14, 6)) {
            Err(e) => Err(e),
            Ok(funding_pubkey) => match pubkey_value(field_at(b, 14, 7)) {
                Err(e) => Err(e),
                Ok(revocation_basepoint) => match pubkey_value(field_at(b, 14, 8)) {
                    Err(e) => Err(e),
                    Ok(payment_basepoint) => match pubkey_value(field_at(b, 14, 9)) {
                        Err(e) => Err(e),
                        Ok(delayed_payment_basepoint) => match pubkey_value(field_at(b, 14, 10)) {
                            Err(e) => Err(e),
                            Ok(tlc_basepoint) => match pubkey_value(field_at(b, 14, 11)) {
                                Err(e) => Err(e),
                                Ok(first_per_commitment_point) => match pubkey_value(field_at(b, 14, 12)) {
                                    Err(e) => Err(e),
                                    Ok(second_per_commitment_point) => match nonce_value(field_at(b, 14, 13)) {
                                        Err(e) => Err(e),
                                        Ok(next_local_nonce) => Ok(SpecAcceptChannel { channel_id: field_at(b, 14, 0), funding_amount: u64_value(field_at(b, 14, 1)), max_tlc_value_in_flight: u64_value(field_at(b, 14, 2)), max_accept_tlcs: u64_value(field_at(b, 14, 3)), min_tlc_value: u64_value(field_at(b, 14, 4)), to_self_delay: u64_value(field_at(b, 14, 5)), funding_pubkey: funding_pubkey, revocation_basepoint: revocation_basepoint, payment_basepoint: payment_basepoint, delayed_payment_basepoint: delayed_payment_basepoint, tlc_basepoint: tlc_basepoint, first_per_commitment_point: first_per_commitment_point, second_per_commitment_point: second_per_commitment_point, next_local_nonce: next_local_nonce }),
                                    },
                                },
                            },
                        },
                    },
                },
            },
        }
    }

    /// What decoding the bytes gives: molecule checks the whole message
    /// first, then each key, signature and nonce is parsed in order.
    pub open spec fn spec_decode(b: Seq<u8>) -> Result<SpecAcceptChannel, SpecError> {
        then_convert(Self::spec_check(b), Self::spec_convert(b))
    }

    /// The molecule bytes of the message.
    pub fn to_molecule_bytes(&self) -> (r: Vec<u8>)
        ensures
            r@ == Self::spec_bytes(self@),
    {
        let mut fs: Vec<Vec<u8>> = Vec::new();
        fs.push(hash_field(&self.channel_id));
        fs.push(u64_field(self.funding_amount));
        fs.push(u64_field(self.max_tlc_value_in_flight));
        fs.push(u64_field(self.max_accept_tlcs));
        fs.push(u64_field(self.min_tlc_value));
        fs.push(u64_field(self.to_self_delay));
        fs.push(pubkey_field(&self.funding_pubkey));
        fs.push(pubkey_field(&self.revocation_basepoint));
        fs.push(pubkey_field(&self.payment_basepoint));
        fs.push(pubkey_field(&self.delayed_payment_basepoint));
        fs.push(pubkey_field(&self.tlc_basepoint));
        fs.push(pubkey_field(&self.first_per_commitment_point));
        fs.push(pubkey_field(&self.second_per_commitment_point));
        fs.push(nonce_field(&self.next_local_nonce));
        assert(views(fs@) =~= Self::spec_fields(self@));
        write_table(&fs)
    }

    /// Checks the bytes as molecule's `AcceptChannelReader` does.
    pub fn check(b: &[u8]) -> (r: Result<(), VerificationError>)
        ensures
            check_view(r) == Self::spec_check(b@),
    {
        let os = match check_table_layout("AcceptChannelReader", b, 14) {
            Ok(os) => os,
            Err(e) => {
                return Err(e);
            },
        };
        assert(os@[0] <= os@[1]);
        assert(os@[1] <= os@[2]);
        assert(os@[2] <= os@[3]);
        assert(os@[3] <= os@[4]);
        assert(os@[4] <= os@[5]);
        assert(os@[5] <= os@[6]);
        assert(os@[6] <= os@[7]);
        assert(os@[7] <= os@[8]);
        assert(os@[8] <= os@[9]);
        assert(os@[9] <= os@[10]);
        assert(os@[10] <= os@[11]);
        assert(os@[11] <= os@[12]);
        assert(os@[12] <= os@[13]);
        assert(os@[13] <= os@[14]);
        let fld0 = &b[os[0]..os[1]];
        let fld1 = &b[os[1]..os[2]];
        let fld2 = &b[os[2]..os[3]];
        let fld3 = &b[os[3]..os[4]];
        let fld4 = &b[os[4]..os[5]];
        let fld5 = &b[os[5]..os[6]];
        let fld6 = &b[os[6]..os[7]];
        let fld7 = &b[os[7]..os[8]];
        let fld8 = &b[os[8]..os[9]];
        let fld9 = &b[os[9]..os[10]];
        let fld10 = &b[os[10]..os[11]];
        let fld11 = &b[os[11]..os[12]];
        let fld12 = &b[os[12]..os[13]];
        let fld13 = &b[os[13]..os[14]];
        match check_hash(fld0) {
            Ok(()) => {},
            Err(e) => {
                return Err(e);
            },
        }
        match check_u64(fld1) {
            Ok(()) => {},
            Err(e) => {
                return Err(e);
            },
        }
        match check_u64(fld2) {
            Ok(()) => {},
            Err(e) => {
                return Err(e);
            },
        }
        match check_u64(fld3) {
            Ok(()) => {},
            Err(e) => {
                return Err(e);
            },
        }
        match check_u64(fld4) {
            Ok(()) => {},
            Err(e) => {
                return Err(e);
            },
        }
        match check_u64(fld5) {
            Ok(()) => {},
            Err(e) => {
                return Err(e);
            },
        }
        match check_pubkey(fld6) {
            Ok(()) => {},
            Err(e) => {
                return Err(e);
            },
        }
        match check_pubkey(fld7) {
            Ok(()) => {},
            Err(e) => {
                return Err(e);
            },
        }
        match check_pubkey(fld8) {
            Ok(()) => {},
            Err(e) => {
                return Err(e);
            },
        }
        match check_pubkey(fld9) {
            Ok(()) => {},
            Err(e) => {
                return Err(e);
            },
        }
        match check_pubkey(fld10) {
            Ok(()) => {},
            Err(e) => {
                return Err(e);
            },
        }
        match check_pubkey(fld11) {
            Ok(()) => {},
            Err(e) => {
                return Err(e);
            },
        }
        match check_pubkey(fld12) {
            Ok(()) => {},
            Err(e) => {
                return Err(e);
            },
        }
        match check_nonce(fld13) {
            Ok(()) => {},
            Err(e) => {
                return Err(e);
            },
        }
        Ok(())
    }

    #[verifier::rlimit(60)]
    fn convert(b: &[u8]) -> (r: Result<Self, Error>)
        requires
            Self::spec_check(b@) == Ok::<(), SpecVerificationError>(()),
        ensures
            result_view(r) == Self::spec_convert(b@),
    {
        let os = match check_table_layout("AcceptChannelReader", b, 14) {
            Ok(os) => os,
            Err(e) => {
                return Err(Error::Molecule(e));
            },
        };
        assert(os@[0] <= os@[1]);
        assert(os@[1] <= os@[2]);
        assert(os@[2] <= os@[3]);
        assert(os@[3] <= os@[4]);
        assert(os@[4] <= os@[5]);
        assert(os@[5] <= os@[6]);
        assert(os@[6] <= os@[7]);
        assert(os@[7] <= os@[8]);
        assert(os@[8] <= os@[9]);
        assert(os@[9] <= os@[10]);
        assert(os@[10] <= os@[11]);
        assert(os@[11] <= os@[12]);
        assert(os@[12] <= os@[13]);
        assert(os@[13] <= os@[14]);
        let fld0 = &b[os[0]..os[1]];
        let fld1 = &b[os[1]..os[2]];
        let fld2 = &b[os[2]..os[3]];
        let fld3 = &b[os[3]..os[4]];
        let fld4 = &b[os[4]..os[5]];
        let fld5 = &b[os[5]..os[6]];
        let fld6 = &b[os[6]..os[7]];
        let fld7 = &b[os[7]..os[8]];
        let fld8 = &b[os[8]..os[9]];
        let fld9 = &b[os[9]..os[10]];
        let fld10 = &b[os[10]..os[11]];
        let fld11 = &b[os[11]..os[12]];
        let fld12 = &b[os[12]..os[13]];
        let fld13 = &b[os[13]..os[14]];
        let channel_id = read_hash(fld0);
        let funding_amount = read_u64(fld1);
        let max_tlc_value_in_flight = read_u64(fld2);
        let max_accept_tlcs = read_u64(fld3);
        let min_tlc_value = read_u64(fld4);
        let to_self_delay = read_u64(fld5);
        let funding_pubkey = match read_pubkey(fld6) {
            Ok(x) => x,
            Err(e) => {
                return Err(e);
            },
        };
        let revocation_basepoint = match read_pubkey(fld7) {
            Ok(x) => x,
            Err(e) => {
                return Err(e);
            },
        };
        let payment_basepoint = match read_pubkey(fld8) {
            Ok(x) => x,
            Err(e) => {
                return Err(e);
            },
        };
        let delayed_payment_basepoint = match read_pubkey(fld9) {
            Ok(x) => x,
            Err(e) => {
                return Err(e);
            },
        };
        let tlc_basepoint = match read_pubkey(fld10) {
            Ok(x) => x,
            Err(e) => {
                return Err(e);
            },
        };
        let first_per_commitment_point = match read_pubkey(fld11) {
            Ok(x) => x,
            Err(e) => {
                return Err(e);
            },
        };
        let second_per_commitment_point = match read_pubkey(fld12) {
            Ok(x) => x,
            Err(e) => {
                return Err(e);
            },
        };
        let next_local_nonce = match read_nonce(fld13) {
            Ok(x) => x,
            Err(e) => {
                return Err(e);
            },
        };
        Ok(AcceptChannel { channel_id, funding_amount, max_tlc_value_in_flight, max_accept_tlcs, min_tlc_value, to_self_delay, funding_pubkey, revocation_basepoint, payment_basepoint, delayed_payment_basepoint, tlc_basepoint, first_per_commitment_point, second_per_commitment_point, next_local_nonce })
    }

    /// Decodes the message from its molecule bytes.
    pub fn from_molecule_slice(data: &[u8]) -> (r: Result<Self, Error>)
        ensures
            result_view(r) == Self::spec_decode(data@),
            r matches Ok(m) ==> m.wf(),
    {
        let r = match Self::check(data) {
            Ok(()) => Self::convert(data),
            Err(e) => Err(Error::Molecule(e)),
        };
        proof {
            match &r {
                Ok(m) => Self::lemma_decoded_wf(data@, m@),
                Err(_) => {},
            }
        }
        r
    }

    /// Decoding the bytes of a well-formed message gives the message back.
    pub proof fn lemma_roundtrip(v: SpecAcceptChannel)
        requires
            Self::spec_wf(v),
            Self::spec_fits(v),
        ensures
            Self::spec_decode(Self::spec_bytes(v)) == Ok::<SpecAcceptChannel, SpecError>(v),
    {
        let fs = Self::spec_fields(v);
        let b = Self::spec_bytes(v);
        lemma_u64_field(v.funding_amount);
        lemma_u64_field(v.max_tlc_value_in_flight);
        lemma_u64_field(v.max_accept_tlcs);
        lemma_u64_field(v.min_tlc_value);
        lemma_u64_field(v.to_self_delay);
        Self::lemma_size(v);
        lemma_table_bytes_accepted("AcceptChannelReader"@, fs);
        assert(field_at(b, 14, 0) == fs[0]);
        assert(field_at(b, 14, 1) == fs[1]);
        assert(field_at(b, 14, 2) == fs[2]);
        assert(field_at(b, 14, 3) == fs[3]);
        assert(field_at(b, 14, 4) == fs[4]);
        assert(field_at(b, 14, 5) == fs[5]);
        assert(field_at(b, 14, 6) == fs[6]);
        assert(field_at(b, 14, 7) == fs[7]);
        assert(field_at(b, 14, 8) == fs[8]);
        assert(field_at(b, 14, 9) == fs[9]);
        assert(field_at(b, 14, 10) == fs[10]);
        assert(field_at(b, 14, 11) == fs[11]);
        assert(field_at(b, 14, 12) == fs[12]);
        assert(field_at(b, 14, 13) == fs[13]);
        assert(Self::spec_convert(b) == Ok::<SpecAcceptChannel, SpecError>(v));
    }

    /// Decoding accepts only the bytes that encoding writes: bytes that
    /// decode to a message are that message's bytes.
    #[verifier::rlimit(40)]
    pub proof fn lemma_canonical(b: Seq<u8>, v: SpecAcceptChannel)
        requires
            Self::spec_decode(b) == Ok::<SpecAcceptChannel, SpecError>(v),
        ensures
            Self::spec_bytes(v) == b,
    {
        lemma_table_canonical("AcceptChannelReader"@, b, 14);
        assert(Self::spec_check(b) == Ok::<(), SpecVerificationError>(()));
        assert(Self::spec_convert(b) == Ok::<SpecAcceptChannel, SpecError>(v));
        lemma_u64_canonical(field_at(b, 14, 1));
        lemma_u64_canonical(field_at(b, 14, 2));
        lemma_u64_canonical(field_at(b, 14, 3));
        lemma_u64_canonical(field_at(b, 14, 4));
        lemma_u64_canonical(field_at(b, 14, 5));
        assert(Self::spec_fields(v)[0] == field_at(b, 14, 0));
        assert(Self::spec_fields(v)[1] == field_at(b, 14, 1));
        assert(Self::spec_fields(v)[2] == field_at(b, 14, 2));
        assert(Self::spec_fields(v)[3] == field_at(b, 14, 3));
        assert(Self::spec_fields(v)[4] == field_at(b, 14, 4));
        assert(Self::spec_fields(v)[5] == field_at(b, 14, 5));
        assert(Self::spec_fields(v)[6] == field_at(b, 14, 6));
        assert(Self::spec_fields(v)[7] == field_at(b, 14, 7));
        assert(Self::spec_fields(v)[8] == field_at(b, 14, 8));
        assert(Self::spec_fields(v)[9] == field_at(b, 14, 9));
        assert(Self::spec_fields(v)[10] == field_at(b, 14, 10));
        assert(Self::spec_fields(v)[11] == field_at(b, 14, 11));
        assert(Self::spec_fields(v)[12] == field_at(b, 14, 12));
        assert(Self::spec_fields(v)[13] == field_at(b, 14, 13));
        assert(Self::spec_fields(v) =~= fields_of(b, 14));
    }

    /// Every message that decoding gives is well formed, and so encodes to
    /// bytes that decode to it again.
    #[verifier::rlimit(40)]
    pub proof fn lemma_decoded_wf(b: Seq<u8>, v: SpecAcceptChannel)
        requires
            Self::spec_decode(b) == Ok::<SpecAcceptChannel, SpecError>(v),
        ensures
            Self::spec_wf(v),
            Self::spec_fits(v),
    {
        Self::lemma_canonical(b, v);
        lemma_le_bytes_of_value(b.subrange(0, 4));
        lemma_pow256_values();
        assert(Self::spec_check(b) == Ok::<(), SpecVerificationError>(()));
        assert(Self::spec_convert(b) == Ok::<SpecAcceptChannel, SpecError>(v));
    }

    /// The wire layout of a well-formed message: a table of exactly 14
    /// fields, which hold, in this order, `channel_id`, `funding_amount`, `max_tlc_value_in_flight`, `max_accept_tlcs`, `min_tlc_value`, `to_self_delay`, `funding_pubkey`, `revocation_basepoint`, `payment_basepoint`, `delayed_payment_basepoint`, `tlc_basepoint`, `first_per_commitment_point`, `second_per_commitment_point`, `next_local_nonce`.
    #[verifier::rlimit(40)]
    pub proof fn lemma_layout(v: SpecAcceptChannel)
        requires
            Self::spec_wf(v),
            Self::spec_fits(v),
        ensures
            table_layout("AcceptChannelReader"@, Self::spec_bytes(v), 14) == Ok::<(), SpecVerificationError>(()),
            field_at(Self::spec_bytes(v), 14, 0) == v.channel_id,
            field_at(Self::spec_bytes(v), 14, 1) == le_bytes(v.funding_amount as nat, 8),
            field_at(Self::spec_bytes(v), 14, 2) == le_bytes(v.max_tlc_value_in_flight as nat, 8),
            field_at(Self::spec_bytes(v), 14, 3) == le_bytes(v.max_accept_tlcs as nat, 8),
            field_at(Self::spec_bytes(v), 14, 4) == le_bytes(v.min_tlc_value as nat, 8),
            field_at(Self::spec_bytes(v), 14, 5) == le_bytes(v.to_self_delay as nat, 8),
            field_at(Self::spec_bytes(v), 14, 6) == v.funding_pubkey,
            field_at(Self::spec_bytes(v), 14, 7) == v.revocation_basepoint,
            field_at(Self::spec_bytes(v), 14, 8) == v.payment_basepoint,
            field_at(Self::spec_bytes(v), 14, 9) == v.delayed_payment_basepoint,
            field_at(Self::spec_bytes(v), 14, 10) == v.tlc_basepoint,
            field_at(Self::spec_bytes(v), 14, 11) == v.first_per_commitment_point,
            field_at(Self::spec_bytes(v), 14, 12) == v.second_per_commitment_point,
            field_at(Self::spec_bytes(v), 14, 13) == v.next_local_nonce,
    {
        let fs = Self::spec_fields(v);
        let b = Self::spec_bytes(v);
        Self::lemma_size(v);
        lemma_table_bytes_accepted("AcceptChannelReader"@, fs);
        assert(field_at(b, 14, 0) == fs[0]);
        assert(field_at(b, 14, 1) == fs[1]);
        assert(field_at(b, 14, 2) == fs[2]);
        assert(field_at(b, 14, 3) == fs[3]);
        assert(field_at(b, 14, 4) == fs[4]);
        assert(field_at(b, 14, 5) == fs[5]);
        assert(field_at(b, 14, 6) == fs[6]);
        assert(field_at(b, 14, 7) == fs[7]);
        assert(field_at(b, 14, 8) == fs[8]);
        assert(field_at(b, 14, 9) == fs[9]);
        assert(field_at(b, 14, 10) == fs[10]);
        assert(field_at(b, 14, 11) == fs[11]);
        assert(field_at(b, 14, 12) == fs[12]);
        assert(field_at(b, 14, 13) == fs[13]);
    }

    /// What decoding accepts is laid out as the table of the message it
    /// gives: field by field, the bytes are that field of the message.
    pub proof fn lemma_decoded_layout(b: Seq<u8>, v: SpecAcceptChannel)
        requires
            Self::spec_decode(b) == Ok::<SpecAcceptChannel, SpecError>(v),
        ensures
            table_layout("AcceptChannelReader"@, b, 14) == Ok::<(), SpecVerificationError>(()),
            field_at(b, 14, 0) == v.channel_id,
            field_at(b, 14, 1) == le_bytes(v.funding_amount as nat, 8),
            field_at(b, 14, 2) == le_bytes(v.max_tlc_value_in_flight as nat, 8),
            field_at(b, 14, 3) == le_bytes(v.max_accept_tlcs as nat, 8),
            field_at(b, 14, 4) == le_bytes(v.min_tlc_value as nat, 8),
            field_at(b, 14, 5) == le_bytes(v.to_self_delay as nat, 8),
            field_at(b, 14, 6) == v.funding_pubkey,
            field_at(b, 14, 7) == v.revocation_basepoint,
            field_at(b, 14, 8) == v.payment_basepoint,
            field_at(b, 14, 9) == v.delayed_payment_basepoint,
            field_at(b, 14, 10) == v.tlc_basepoint,
            field_at(b, 14, 11) == v.first_per_commitment_point,
            field_at(b, 14, 12) == v.second_per_commitment_point,
            field_at(b, 14, 13) == v.next_local_nonce,
    {
        Self::lemma_canonical(b, v);
        Self::lemma_decoded_wf(b, v);
        Self::lemma_layout(v);
    }

    /// The bytes of a well-formed message are short.
    pub proof fn lemma_size(v: SpecAcceptChannel)
        requires
            Self::spec_wf(v),
        ensures
            Self::spec_bytes(v).len() <= 984,
    {
        let fs = Self::spec_fields(v);
        lemma_le_bytes_len(v.funding_amount as nat, 8);
        lemma_le_bytes_len(v.max_tlc_value_in_flight as nat, 8);
        lemma_le_bytes_len(v.max_accept_tlcs as nat, 8);
        lemma_le_bytes_len(v.min_tlc_value as nat, 8);
        lemma_le_bytes_len(v.to_self_delay as nat, 8);
        assert forall|i: int| 0 <= i < fs.len() implies (#[trigger] fs[i]).len() <= 66 by {}
        lemma_concat_len_le(fs, 66);
        lemma_numbers_bytes_len(table_header(fs));
    }
}

/// A signature over the next commitment transaction.
#[derive(Clone, Debug, PartialEq, Eq)]
pub struct CommitmentSigned {
    pub channel_id: Hash256,
    pub signature: Signature,
}

/// The mathematical value of a [`CommitmentSigned`].
pub struct SpecCommitmentSigned {
    pub channel_id: Seq<u8>,
    pub signature: Seq<u8>,
}

impl View for CommitmentSigned {
    type V = SpecCommitmentSigned;

    open spec fn view(&self) -> SpecCommitmentSigned {
        SpecCommitmentSigned {
            channel_id: self.channel_id@,
            signature: self.signature@,
        }
    }
}

impl CommitmentSigned {
    /// The molecule bytes of each field, in order.
    pub open spec fn spec_fields(v: SpecCommitmentSigned) -> Seq<Seq<u8>> {
        seq![
            v.channel_id,
            v.signature,
        ]
    }

    /// The molecule bytes of the message.
    pub open spec fn spec_bytes(v: SpecCommitmentSigned) -> Seq<u8> {
        table_bytes(Self::spec_fields(v))
    }

    /// Every key, signature, nonce and script of the message is one that
    /// its library accepts, and every length fits its four-byte header.
    pub open spec fn spec_wf(v: SpecCommitmentSigned) -> bool {
        &&& v.channel_id.len() == 32
        &&& v.signature.len() == 64 && secp_compact_signature_valid(v.signature)
    }

    /// The message fits the four-byte total size of molecule.
    pub open spec fn spec_fits(v: SpecCommitmentSigned) -> bool {
        true
    }

    pub open spec fn wf(&self) -> bool {
        Self::spec_wf(self@) && Self::spec_fits(self@)
    }

    /// What molecule's `CommitmentSignedReader` says of the bytes.
    pub open spec fn spec_check(b: Seq<u8>) -> Result<(), SpecVerificationError> {
        match table_layout("CommitmentSignedReader"@, b, 2) {
            Err(e) => Err(e),
            Ok(_) => and_then(
                hash_check(field_at(b, 2, 0)),
                signature_check(field_at(b, 2, 1)),
            ),
        }
    }

    /// The message in checked bytes, or the first key, signature or nonce
    /// that does not parse.
    pub open spec fn spec_convert(b: Seq<u8>) -> Result<SpecCommitmentSigned, SpecError> {
        match signature_value(field_at(b, 2, 1)) {
            Err(e) => Err(e),
            Ok(signature) => Ok(SpecCommitmentSigned { channel_id: field_at(b, 2, 0), signature: signature }),
        }
    }

    /// What decoding the bytes gives: molecule checks the whole message
    /// first, then each key, signature and nonce is parsed in order.
    pub open spec fn spec_decode(b: Seq<u8>) -> Result<SpecCommitmentSigned, SpecError> {
        then_convert(Self::spec_check(b), Self::spec_convert(b))
    }

    /// The molecule bytes of the message.
    pub fn to_molecule_bytes(&self) -> (r: Vec<u8>)
        ensures
            r@ == Self::spec_bytes(self@),
    {
        let mut fs: Vec<Vec<u8>> = Vec::new();
        fs.push(hash_field(&self.channel_id));
        fs.push(signature_field(&self.signature));
        assert(views(fs@) =~= Self::spec_fields(self@));
        write_table(&fs)
    }

    /// Checks the bytes as molecule's `CommitmentSignedReader` does.
    pub fn check(b: &[u8]) -> (r: Result<(), VerificationError>)
        ensures
            check_view(r) == Self::spec_check(b@),
    {
        let os = match check_table_layout("CommitmentSignedReader", b, 2) {
            Ok(os) => os,
            Err(e) => {
                return Err(e);
            },
        };
        assert(os@[0] <= os@[1]);
        assert(os@[1] <= os@[2]);
        let fld0 = &b[os[0]..os[1]];
        let fld1 = &b[os[1]..os[2]];
        match check_hash(fld0) {
            Ok(()) => {},
            Err(e) => {
                return Err(e);
            },
        }
        match check_signature(fld1) {
            Ok(()) => {},
            Err(e) => {
                return Err(e);
            },
        }
        Ok(())
    }

    fn convert(b: &[u8]) -> (r: Result<Self, Error>)
        requires
            Self::spec_check(b@) == Ok::<(), SpecVerificationError>(()),
        ensures
            result_view(r) == Self::spec_convert(b@),
    {
        let os = match check_table_layout("CommitmentSignedReader", b, 2) {
            Ok(os) => os,
            Err(e) => {
                return Err(Error::Molecule(e));
            },
        };
        assert(os@[0] <= os@[1]);
        assert(os@[1] <= os@[2]);
        let fld0 = &b[os[0]..os[1]];
        let fld1 = &b[os[1]..os[2]];
        let channel_id = read_hash(fld0);
        let signature = match read_signature(fld1) {
            Ok(x) => x,
            Err(e) => {
                return Err(e);
            },
        };
        Ok(CommitmentSigned { channel_id, signature })
    }

    /// Decodes the message from its molecule bytes.
    pub fn from_molecule_slice(data: &[u8]) -> (r: Result<Self, Error>)
        ensures
            result_view(r) == Self::spec_decode(data@),
            r matches Ok(m) ==> m.wf(),
    {
        let r = match Self::check(data) {
            Ok(()) => Self::convert(data),
            Err(e) => Err(Error::Molecule(e)),
        };
        proof {
            match &r {
                Ok(m) => Self::lemma_decoded_wf(data@, m@),
                Err(_) => {},
            }
        }
        r
    }

    /// Decoding the bytes of a well-formed message gives the message back.
    pub proof fn lemma_roundtrip(v: SpecCommitmentSigned)
        requires
            Self::spec_wf(v),
            Self::spec_fits(v),
        ensures
            Self::spec_decode(Self::spec_bytes(v)) == Ok::<SpecCommitmentSigned, SpecError>(v),
    {
        let fs = Self::spec_fields(v);
        let b = Self::spec_bytes(v);
        Self::lemma_size(v);
        lemma_table_bytes_accepted("CommitmentSignedReader"@, fs);
        assert(field_at(b, 2, 0) == fs[0]);
        assert(field_at(b, 2, 1) == fs[1]);
        assert(Self::spec_convert(b) == Ok::<SpecCommitmentSigned, SpecError>(v));
    }

    /// Decoding accepts only the bytes that encoding writes: bytes that
    /// decode to a message are that message's bytes.
    pub proof fn lemma_canonical(b: Seq<u8>, v: SpecCommitmentSigned)
        requires
            Self::spec_decode(b) == Ok::<SpecCommitmentSigned, SpecError>(v),
        ensures
            Self::spec_bytes(v) == b,
    {
        lemma_table_canonical("CommitmentSignedReader"@, b, 2);
        assert(Self::spec_fields(v) =~= fields_of(b, 2));
    }

    /// Every message that decoding gives is well formed, and so encodes to
    /// bytes that decode to it again.
    pub proof fn lemma_decoded_wf(b: Seq<u8>, v: SpecCommitmentSigned)
        requires
            Self::spec_decode(b) == Ok::<SpecCommitmentSigned, SpecError>(v),
        ensures
            Self::spec_wf(v),
            Self::spec_fits(v),
    {
        Self::lemma_canonical(b, v);
        lemma_le_bytes_of_value(b.subrange(0, 4));
        lemma_pow256_values();
    }

    /// The wire layout of a well-formed message: a table of exactly 2
    /// fields, which hold, in this order, `channel_id`, `signature`.
    pub proof fn lemma_layout(v: SpecCommitmentSigned)
        requires
            Self::spec_wf(v),
            Self::spec_fits(v),
        ensures
            table_layout("CommitmentSignedReader"@, Self::spec_bytes(v), 2) == Ok::<(), SpecVerificationError>(()),
            field_at(Self::spec_bytes(v), 2, 0) == v.channel_id,
            field_at(Self::spec_bytes(v), 2, 1) == v.signature,
    {
        let fs = Self::spec_fields(v);
        let b = Self::spec_bytes(v);
        Self::lemma_size(v);
        lemma_table_bytes_accepted("CommitmentSignedReader"@, fs);
        assert(field_at(b, 2, 0) == fs[0]);
        assert(field_at(b, 2, 1) == fs[1]);
    }

    /// What decoding accepts is laid out as the table of the message it
    /// gives: field by field, the bytes are that field of the message.
    pub proof fn lemma_decoded_layout(b: Seq<u8>, v: SpecCommitmentSigned)
        requires
            Self::spec_decode(b) == Ok::<SpecCommitmentSigned, SpecError>(v),
        ensures
            table_layout("CommitmentSignedReader"@, b, 2) == Ok::<(), SpecVerificationError>(()),
            field_at(b, 2, 0) == v.channel_id,
            field_at(b, 2, 1) == v.signature,
    {
        Self::lemma_canonical(b, v);
        Self::lemma_decoded_wf(b, v);
        Self::lemma_layout(v);
    }

    /// The bytes of a well-formed message are short.
    pub proof fn lemma_size(v: SpecCommitmentSigned)
        requires
            Self::spec_wf(v),
        ensures
            Self::spec_bytes(v).len() <= 140,
    {
        let fs = Self::spec_fields(v);
        assert forall|i: int| 0 <= i < fs.len() implies (#[trigger] fs[i]).len() <= 64 by {}
        lemma_concat_len_le(fs, 64);
        lemma_numbers_bytes_len(table_header(fs));
    }
}

/// The witnesses that sign the funding transaction.
#[derive(Clone, Debug, PartialEq, Eq)]
pub struct TxSignatures {
    pub channel_id: Hash256,
    pub tx_hash: Hash256,
    pub witnesses: Vec<Vec<u8>>,
}

/// The mathematical value of a [`TxSignatures`].
pub struct SpecTxSignatures {
    pub channel_id: Seq<u8>,
    pub tx_hash: Seq<u8>,
    pub witnesses: Seq<Seq<u8>>,
}

impl View for TxSignatures {
    type V = SpecTxSignatures;

    open spec fn view(&self) -> SpecTxSignatures {
        SpecTxSignatures {
            channel_id: self.channel_id@,
            tx_hash: self.tx_hash@,
            witnesses: views(self.witnesses@),
        }
    }
}

impl TxSignatures {
    /// The molecule bytes of each field, in order.
    pub open spec fn spec_fields(v: SpecTxSignatures) -> Seq<Seq<u8>> {
        seq![
            v.channel_id,
            v.tx_hash,
            bytes_vec_bytes(v.witnesses),
        ]
    }

    /// The molecule bytes of the message.
    pub open spec fn spec_bytes(v: SpecTxSignatures) -> Seq<u8> {
        table_bytes(Self::spec_fields(v))
    }

    /// Every key, signature, nonce and script of the message is one that
    /// its library accepts, and every length fits its four-byte header.
    pub open spec fn spec_wf(v: SpecTxSignatures) -> bool {
        &&& v.channel_id.len() == 32
        &&& v.tx_hash.len() == 32
        &&& bytes_vec_fits(v.witnesses)
    }

    /// The message fits the four-byte total size of molecule.
    pub open spec fn spec_fits(v: SpecTxSignatures) -> bool {
        Self::spec_bytes(v).len() < 0x1_0000_0000
    }

    pub open spec fn wf(&self) -> bool {
        Self::spec_wf(self@) && Self::spec_fits(self@)
    }

    /// What molecule's `TxSignaturesReader` says of the bytes.
    pub open spec fn spec_check(b: Seq<u8>) -> Result<(), SpecVerificationError> {
        match table_layout("TxSignaturesReader"@, b, 3) {
            Err(e) => Err(e),
            Ok(_) => and_then(
                hash_check(field_at(b, 3, 0)),
                and_then(
                hash_check(field_at(b, 3, 1)),
                bytes_vec_check(field_at(b, 3, 2)),
            ),
            ),
        }
    }

    /// The message in checked bytes, or the first key, signature or nonce
    /// that does not parse.
    pub open spec fn spec_convert(b: Seq<u8>) -> Result<SpecTxSignatures, SpecError> {
        Ok(SpecTxSignatures { channel_id: field_at(b, 3, 0), tx_hash: field_at(b, 3, 1), witnesses: bytes_vec_value(field_at(b, 3, 2)) })
    }

    /// What decoding the bytes gives: molecule checks the whole message
    /// first, then each key, signature and nonce is parsed in order.
    pub open spec fn spec_decode(b: Seq<u8>) -> Result<SpecTxSignatures, SpecError> {
        then_convert(Self::spec_check(b), Self::spec_convert(b))
    }

    /// The molecule bytes of the message.
    pub fn to_molecule_bytes(&self) -> (r: Vec<u8>)
        ensures
            r@ == Self::spec_bytes(self@),
    {
        let mut fs: Vec<Vec<u8>> = Vec::new();
        fs.push(hash_field(&self.channel_id));
        fs.push(hash_field(&self.tx_hash));
        fs.push(bytes_vec_field(&self.witnesses));
        assert(views(fs@) =~= Self::spec_fields(self@));
        write_table(&fs)
    }

    /// Checks the bytes as molecule's `TxSignaturesReader` does.
    pub fn check(b: &[u8]) -> (r: Result<(), VerificationError>)
        ensures
            check_view(r) == Self::spec_check(b@),
    {
        let os = match check_table_layout("TxSignaturesReader", b, 3) {
            Ok(os) => os,
            Err(e) => {
                return Err(e);
            },
        };
        assert(os@[0] <= os@[1]);
        assert(os@[1] <= os@[2]);
        assert(os@[2] <= os@[3]);
        let fld0 = &b[os[0]..os[1]];
        let fld1 = &b[os[1]..os[2]];
        let fld2 = &b[os[2]..os[3]];
        match check_hash(fld0) {
            Ok(()) => {},
            Err(e) => {
                return Err(e);
            },
        }
        match check_hash(fld1) {
            Ok(()) => {},
            Err(e) => {
                return Err(e);
            },
        }
        match check_bytes_vec(fld2) {
            Ok(_) => {},
            Err(e) => {
                return Err(e);
            },
        }
        Ok(())
    }

    fn convert(b: &[u8]) -> (r: Result<Self, Error>)
        requires
            Self::spec_check(b@) == Ok::<(), SpecVerificationError>(()),
        ensures
            result_view(r) == Self::spec_convert(b@),
    {
        let os = match check_table_layout("TxSignaturesReader", b, 3) {
            Ok(os) => os,
            Err(e) => {
                return Err(Error::Molecule(e));
            },
        };
        assert(os@[0] <= os@[1]);
        assert(os@[1] <= os@[2]);
        assert(os@[2] <= os@[3]);
        let fld0 = &b[os[0]..os[1]];
        let fld1 = &b[os[1]..os[2]];
        let fld2 = &b[os[2]..os[3]];
        let channel_id = read_hash(fld0);
        let tx_hash = read_hash(fld1);
        let witnesses = match check_bytes_vec(fld2) {
            Ok(ws) => read_bytes_vec(fld2, &ws),
            Err(e) => {
                return Err(Error::Molecule(e));
            },
        };
        Ok(TxSignatures { channel_id, tx_hash, witnesses })
    }

    /// Decodes the message from its molecule bytes.
    pub fn from_molecule_slice(data: &[u8]) -> (r: Result<Self, Error>)
        ensures
            result_view(r) == Self::spec_decode(data@),
            r matches Ok(m) ==> m.wf(),
    {
        let r = match Self::check(data) {
            Ok(()) => Self::convert(data),
            Err(e) => Err(Error::Molecule(e)),
        };
        proof {
            match &r {
                Ok(m) => Self::lemma_decoded_wf(data@, m@),
                Err(_) => {},
            }
        }
        r
    }

    /// Decoding the bytes of a well-formed message gives the message back.
    pub proof fn lemma_roundtrip(v: SpecTxSignatures)
        requires
            Self::spec_wf(v),
            Self::spec_fits(v),
        ensures
            Self::spec_decode(Self::spec_bytes(v)) == Ok::<SpecTxSignatures, SpecError>(v),
    {
        let fs = Self::spec_fields(v);
        let b = Self::spec_bytes(v);
        lemma_bytes_vec_field(v.witnesses);
        lemma_table_bytes_accepted("TxSignaturesReader"@, fs);
        assert(field_at(b, 3, 0) == fs[0]);
        assert(field_at(b, 3, 1) == fs[1]);
        assert(field_at(b, 3, 2) == fs[2]);
        assert(Self::spec_convert(b) == Ok::<SpecTxSignatures, SpecError>(v));
    }

    /// Decoding accepts only the bytes that encoding writes: bytes that
    /// decode to a message are that message's bytes.
    pub proof fn lemma_canonical(b: Seq<u8>, v: SpecTxSignatures)
        requires
            Self::spec_decode(b) == Ok::<SpecTxSignatures, SpecError>(v),
        ensures
            Self::spec_bytes(v) == b,
    {
        lemma_table_canonical("TxSignaturesReader"@, b, 3);
        lemma_bytes_vec_canonical(field_at(b, 3, 2));
        assert(Self::spec_fields(v) =~= fields_of(b, 3));
    }

    /// Every message that decoding gives is well formed, and so encodes to
    /// bytes that decode to it again.
    pub proof fn lemma_decoded_wf(b: Seq<u8>, v: SpecTxSignatures)
        requires
            Self::spec_decode(b) == Ok::<SpecTxSignatures, SpecError>(v),
        ensures
            Self::spec_wf(v),
            Self::spec_fits(v),
    {
        Self::lemma_canonical(b, v);
        lemma_le_bytes_of_value(b.subrange(0, 4));
        lemma_pow256_values();
        lemma_bytes_vec_value_fits(field_at(b, 3, 2));
    }

    /// The wire layout of a well-formed message: a table of exactly 3
    /// fields, which hold, in this order, `channel_id`, `tx_hash`, `witnesses`.
    pub proof fn lemma_layout(v: SpecTxSignatures)
        requires
            Self::spec_wf(v),
            Self::spec_fits(v),
        ensures
            table_layout("TxSignaturesReader"@, Self::spec_bytes(v), 3) == Ok::<(), SpecVerificationError>(()),
            field_at(Self::spec_bytes(v), 3, 0) == v.channel_id,
            field_at(Self::spec_bytes(v), 3, 1) == v.tx_hash,
            field_at(Self::spec_bytes(v), 3, 2) == bytes_vec_bytes(v.witnesses),
    {
        let fs = Self::spec_fields(v);
        let b = Self::spec_bytes(v);
        lemma_table_bytes_accepted("TxSignaturesReader"@, fs);
        assert(field_at(b, 3, 0) == fs[0]);
        assert(field_at(b, 3, 1) == fs[1]);
        assert(field_at(b, 3, 2) == fs[2]);
    }

    /// What decoding accepts is laid out as the table of the message it
    /// gives: field by field, the bytes are that field of the message.
    pub proof fn lemma_decoded_layout(b: Seq<u8>, v: SpecTxSignatures)
        requires
            Self::spec_decode(b) == Ok::<SpecTxSignatures, SpecError>(v),
        ensures
            table_layout("TxSignaturesReader"@, b, 3) == Ok::<(), SpecVerificationError>(()),
            field_at(b, 3, 0) == v.channel_id,
            field_at(b, 3, 1) == v.tx_hash,
            field_at(b, 3, 2) == bytes_vec_bytes(v.witnesses),
    {
        Self::lemma_canonical(b, v);
        Self::lemma_decoded_wf(b, v);
        Self::lemma_layout(v);
    }
}

/// The sender considers the channel open.
#[derive(Clone, Debug, PartialEq, Eq)]
pub struct ChannelReady {
    pub channel_id: Hash256,
}

/// The mathematical value of a [`ChannelReady`].
pub struct SpecChannelReady {
    pub channel_id: Seq<u8>,
}

impl View for ChannelReady {
    type V = SpecChannelReady;

    open spec fn view(&self) -> SpecChannelReady {
        SpecChannelReady {
            channel_id: self.channel_id@,
        }
    }
}

impl ChannelReady {
    /// The molecule bytes of each field, in order.
    pub open spec fn spec_fields(v: SpecChannelReady) -> Seq<Seq<u8>> {
        seq![
            v.channel_id,
        ]
    }

    /// The molecule bytes of the message.
    pub open spec fn spec_bytes(v: SpecChannelReady) -> Seq<u8> {
        table_bytes(Self::spec_fields(v))
    }

    /// Every key, signature, nonce and script of the message is one that
    /// its library accepts, and every length fits its four-byte header.
    pub open spec fn spec_wf(v: SpecChannelReady) -> bool {
        &&& v.channel_id.len() == 32
    }

    /// The message fits the four-byte total size of molecule.
    pub open spec fn spec_fits(v: SpecChannelReady) -> bool {
        true
    }

    pub open spec fn wf(&self) -> bool {
        Self::spec_wf(self@) && Self::spec_fits(self@)
    }

    /// What molecule's `ChannelReadyReader` says of the bytes.
    pub open spec fn spec_check(b: Seq<u8>) -> Result<(), SpecVerificationError> {
        match table_layout("ChannelReadyReader"@, b, 1) {
            Err(e) => Err(e),
            Ok(_) => hash_check(field_at(b, 1, 0)),
        }
    }

    /// The message in checked bytes, or the first key, signature or nonce
    /// that does not parse.
    pub open spec fn spec_convert(b: Seq<u8>) -> Result<SpecChannelReady, SpecError> {
        Ok(SpecChannelReady { channel_id: field_at(b, 1, 0) })
    }

    /// What decoding the bytes gives: molecule checks the whole message
    /// first, then each key, signature and nonce is parsed in order.
    pub open spec fn spec_decode(b: Seq<u8>) -> Result<SpecChannelReady, SpecError> {
        then_convert(Self::spec_check(b), Self::spec_convert(b))
    }

    /// The molecule bytes of the message.
    pub fn to_molecule_bytes(&self) -> (r: Vec<u8>)
        ensures
            r@ == Self::spec_bytes(self@),
    {
        let mut fs: Vec<Vec<u8>> = Vec::new();
        fs.push(hash_field(&self.channel_id));
        assert(views(fs@) =~= Self::spec_fields(self@));
        write_table(&fs)
    }

    /// Checks the bytes as molecule's `ChannelReadyReader` does.
    pub fn check(b: &[u8]) -> (r: Result<(), VerificationError>)
        ensures
            check_view(r) == Self::spec_check(b@),
    {
        let os = match check_table_layout("ChannelReadyReader", b, 1) {
            Ok(os) => os,
            Err(e) => {
                return Err(e);
            },
        };
        assert(os@[0] <= os@[1]);
        let fld0 = &b[os[0]..os[1]];
        match check_hash(fld0) {
            Ok(()) => {},
            Err(e) => {
                return Err(e);
            },
        }
        Ok(())
    }

    fn convert(b: &[u8]) -> (r: Result<Self, Error>)
        requires
            Self::spec_check(b@) == Ok::<(), SpecVerificationError>(()),
        ensures
            result_view(r) == Self::spec_convert(b@),
    {
        let os = match check_table_layout("ChannelReadyReader", b, 1) {
            Ok(os) => os,
            Err(e) => {
                return Err(Error::Molecule(e));
            },
        };
        assert(os@[0] <= os@[1]);
        let fld0 = &b[os[0]..os[1]];
        let channel_id = read_hash(fld0);
        Ok(ChannelReady { channel_id })
    }

    /// Decodes the message from its molecule bytes.
    pub fn from_molecule_slice(data: &[u8]) -> (r: Result<Self, Error>)
        ensures
            result_view(r) == Self::spec_decode(data@),
            r matches Ok(m) ==> m.wf(),
    {
        let r = match Self::check(data) {
            Ok(()) => Self::convert(data),
            Err(e) => Err(Error::Molecule(e)),
        };
        proof {
            match &r {
                Ok(m) => Self::lemma_decoded_wf(data@, m@),
                Err(_) => {},
            }
        }
        r
    }

    /// Decoding the bytes of a well-formed message gives the message back.
    pub proof fn lemma_roundtrip(v: SpecChannelReady)
        requires
            Self::spec_wf(v),
            Self::spec_fits(v),
        ensures
            Self::spec_decode(Self::spec_bytes(v)) == Ok::<SpecChannelReady, SpecError>(v),
    {
        let fs = Self::spec_fields(v);
        let b = Self::spec_bytes(v);
        Self::lemma_size(v);
        lemma_table_bytes_accepted("ChannelReadyReader"@, fs);
        assert(field_at(b, 1, 0) == fs[0]);
        assert(Self::spec_convert(b) == Ok::<SpecChannelReady, SpecError>(v));
    }

    /// Decoding accepts only the bytes that encoding writes: bytes that
    /// decode to a message are that message's bytes.
    pub proof fn lemma_canonical(b: Seq<u8>, v: SpecChannelReady)
        requires
            Self::spec_decode(b) == Ok::<SpecChannelReady, SpecError>(v),
        ensures
            Self::spec_bytes(v) == b,
    {
        lemma_table_canonical("ChannelReadyReader"@, b, 1);
        assert(Self::spec_fields(v) =~= fields_of(b, 1));
    }

    /// Every message that decoding gives is well formed, and so encodes to
    /// bytes that decode to it again.
    pub proof fn lemma_decoded_wf(b: Seq<u8>, v: SpecChannelReady)
        requires
            Self::spec_decode(b) == Ok::<SpecChannelReady, SpecError>(v),
        ensures
            Self::spec_wf(v),
            Self::spec_fits(v),
    {
        Self::lemma_canonical(b, v);
        lemma_le_bytes_of_value(b.subrange(0, 4));
        lemma_pow256_values();
    }

    /// The wire layout of a well-formed message: a table of exactly 1
    /// fields, which hold, in this order, `channel_id`.
    pub proof fn lemma_layout(v: SpecChannelReady)
        requires
            Self::spec_wf(v),
            Self::spec_fits(v),
        ensures
            table_layout("ChannelReadyReader"@, Self::spec_bytes(v), 1) == Ok::<(), SpecVerificationError>(()),
            field_at(Self::spec_bytes(v), 1, 0) == v.channel_id,
    {
        let fs = Self::spec_fields(v);
        let b = Self::spec_bytes(v);
        Self::lemma_size(v);
        lemma_table_bytes_accepted("ChannelReadyReader"@, fs);
        assert(field_at(b, 1, 0) == fs[0]);
    }

    /// What decoding accepts is laid out as the table of the message it
    /// gives: field by field, the bytes are that field of the message.
    pub proof fn lemma_decoded_layout(b: Seq<u8>, v: SpecChannelReady)
        requires
            Self::spec_decode(b) == Ok::<SpecChannelReady, SpecError>(v),
        ensures
            table_layout("ChannelReadyReader"@, b, 1) == Ok::<(), SpecVerificationError>(()),
            field_at(b, 1, 0) == v.channel_id,
    {
        Self::lemma_canonical(b, v);
        Self::lemma_decoded_wf(b, v);
        Self::lemma_layout(v);
    }

    /// The bytes of a well-formed message are short.
    pub proof fn lemma_size(v: SpecChannelReady)
        requires
            Self::spec_wf(v),
        ensures
            Self::spec_bytes(v).len() <= 40,
    {
        let fs = Self::spec_fields(v);
        assert forall|i: int| 0 <= i < fs.len() implies (#[trigger] fs[i]).len() <= 32 by {}
        lemma_concat_len_le(fs, 32);
        lemma_numbers_bytes_len(table_header(fs));
    }
}

/// A proposed funding transaction.
#[derive(Clone, Debug, PartialEq, Eq)]
pub struct TxAdd {
    pub channel_id: Hash256,
    pub tx: Transaction,
}

/// The mathematical value of a [`TxAdd`].
pub struct SpecTxAdd {
    pub channel_id: Seq<u8>,
    pub tx: Seq<u8>,
}

impl View for TxAdd {
    type V = SpecTxAdd;

    open spec fn view(&self) -> SpecTxAdd {
        SpecTxAdd {
            channel_id: self.channel_id@,
            tx: self.tx@,
        }
    }
}

impl TxAdd {
    /// The molecule bytes of each field, in order.
    pub open spec fn spec_fields(v: SpecTxAdd) -> Seq<Seq<u8>> {
        seq![
            v.channel_id,
            v.tx,
        ]
    }

    /// The molecule bytes of the message.
    pub open spec fn spec_bytes(v: SpecTxAdd) -> Seq<u8> {
        table_bytes(Self::spec_fields(v))
    }

    /// Every key, signature, nonce and script of the message is one that
    /// its library accepts, and every length fits its four-byte header.
    pub open spec fn spec_wf(v: SpecTxAdd) -> bool {
        &&& v.channel_id.len() == 32
        &&& ckb_transaction_check(v.tx) is Ok
    }

    /// The message fits the four-byte total size of molecule.
    pub open spec fn spec_fits(v: SpecTxAdd) -> bool {
        Self::spec_bytes(v).len() < 0x1_0000_0000
    }

    pub open spec fn wf(&self) -> bool {
        Self::spec_wf(self@) && Self::spec_fits(self@)
    }

    /// What molecule's `TxAddReader` says of the bytes.
    pub open spec fn spec_check(b: Seq<u8>) -> Result<(), SpecVerificationError> {
        match table_layout("TxAddReader"@, b, 2) {
            Err(e) => Err(e),
            Ok(_) => and_then(
                hash_check(field_at(b, 2, 0)),
                ckb_transaction_check(field_at(b, 2, 1)),
            ),
        }
    }

    /// The message in checked bytes, or the first key, signature or nonce
    /// that does not parse.
    pub open spec fn spec_convert(b: Seq<u8>) -> Result<SpecTxAdd, SpecError> {
        Ok(SpecTxAdd { channel_id: field_at(b, 2, 0), tx: field_at(b, 2, 1) })
    }

    /// What decoding the bytes gives: molecule checks the whole message
    /// first, then each key, signature and nonce is parsed in order.
    pub open spec fn spec_decode(b: Seq<u8>) -> Result<SpecTxAdd, SpecError> {
        then_convert(Self::spec_check(b), Self::spec_convert(b))
    }

    /// The molecule bytes of the message.
    pub fn to_molecule_bytes(&self) -> (r: Vec<u8>)
        ensures
            r@ == Self::spec_bytes(self@),
    {
        let mut fs: Vec<Vec<u8>> = Vec::new();
        fs.push(hash_field(&self.channel_id));
        fs.push(transaction_field(&self.tx));
        assert(views(fs@) =~= Self::spec_fields(self@));
        write_table(&fs)
    }

    /// Checks the bytes as molecule's `TxAddReader` does.
    pub fn check(b: &[u8]) -> (r: Result<(), VerificationError>)
        ensures
            check_view(r) == Self::spec_check(b@),
    {
        let os = match check_table_layout("TxAddReader", b, 2) {
            Ok(os) => os,
            Err(e) => {
                return Err(e);
            },
        };
        assert(os@[0] <= os@[1]);
        assert(os@[1] <= os@[2]);
        let fld0 = &b[os[0]..os[1]];
        let fld1 = &b[os[1]..os[2]];
        match check_hash(fld0) {
            Ok(()) => {},
            Err(e) => {
                return Err(e);
            },
        }
        match check_transaction(fld1) {
            Ok(()) => {},
            Err(e) => {
                return Err(e);
            },
        }
        Ok(())
    }

    fn convert(b: &[u8]) -> (r: Result<Self, Error>)
        requires
            Self::spec_check(b@) == Ok::<(), SpecVerificationError>(()),
        ensures
            result_view(r) == Self::spec_convert(b@),
    {
        let os = match check_table_layout("TxAddReader", b, 2) {
            Ok(os) => os,
            Err(e) => {
                return Err(Error::Molecule(e));
            },
        };
        assert(os@[0] <= os@[1]);
        assert(os@[1] <= os@[2]);
        let fld0 = &b[os[0]..os[1]];
        let fld1 = &b[os[1]..os[2]];
        let channel_id = read_hash(fld0);
        let tx = read_transaction(fld1);
        Ok(TxAdd { channel_id, tx })
    }

    /// Decodes the message from its molecule bytes.
    pub fn from_molecule_slice(data: &[u8]) -> (r: Result<Self, Error>)
        ensures
            result_view(r) == Self::spec_decode(data@),
            r matches Ok(m) ==> m.wf(),
    {
        let r = match Self::check(data) {
            Ok(()) => Self::convert(data),
            Err(e) => Err(Error::Molecule(e)),
        };
        proof {
            match &r {
                Ok(m) => Self::lemma_decoded_wf(data@, m@),
                Err(_) => {},
            }
        }
        r
    }

    /// Decoding the bytes of a well-formed message gives the message back.
    pub proof fn lemma_roundtrip(v: SpecTxAdd)
        requires
            Self::spec_wf(v),
            Self::spec_fits(v),
        ensures
            Self::spec_decode(Self::spec_bytes(v)) == Ok::<SpecTxAdd, SpecError>(v),
    {
        let fs = Self::spec_fields(v);
        let b = Self::spec_bytes(v);
        lemma_table_bytes_accepted("TxAddReader"@, fs);
        assert(field_at(b, 2, 0) == fs[0]);
        assert(field_at(b, 2, 1) == fs[1]);
        assert(Self::spec_convert(b) == Ok::<SpecTxAdd, SpecError>(v));
    }

    /// Decoding accepts only the bytes that encoding writes: bytes that
    /// decode to a message are that message's bytes.
    pub proof fn lemma_canonical(b: Seq<u8>, v: SpecTxAdd)
        requires
            Self::spec_decode(b) == Ok::<SpecTxAdd, SpecError>(v),
        ensures
            Self::spec_bytes(v) == b,
    {
        lemma_table_canonical("TxAddReader"@, b, 2);
        assert(Self::spec_fields(v) =~= fields_of(b, 2));
    }

    /// Every message that decoding gives is well formed, and so encodes to
    /// bytes that decode to it again.
    pub proof fn lemma_decoded_wf(b: Seq<u8>, v: SpecTxAdd)
        requires
            Self::spec_decode(b) == Ok::<SpecTxAdd, SpecError>(v),
        ensures
            Self::spec_wf(v),
            Self::spec_fits(v),
    {
        Self::lemma_canonical(b, v);
        lemma_le_bytes_of_value(b.subrange(0, 4));
        lemma_pow256_values();
    }

    /// The wire layout of a well-formed message: a table of exactly 2
    /// fields, which hold, in this order, `channel_id`, `tx`.
    pub proof fn lemma_layout(v: SpecTxAdd)
        requires
            Self::spec_wf(v),
            Self::spec_fits(v),
        ensures
            table_layout("TxAddReader"@, Self::spec_bytes(v), 2) == Ok::<(), SpecVerificationError>(()),
            field_at(Self::spec_bytes(v), 2, 0) == v.channel_id,
            field_at(Self::spec_bytes(v), 2, 1) == v.tx,
    {
        let fs = Self::spec_fields(v);
        let b = Self::spec_bytes(v);
        lemma_table_bytes_accepted("TxAddReader"@, fs);
        assert(field_at(b, 2, 0) == fs[0]);
        assert(field_at(b, 2, 1) == fs[1]);
    }

    /// What decoding accepts is laid out as the table of the message it
    /// gives: field by field, the bytes are that field of the message.
    pub proof fn lemma_decoded_layout(b: Seq<u8>, v: SpecTxAdd)
        requires
            Self::spec_decode(b) == Ok::<SpecTxAdd, SpecError>(v),
        ensures
            table_layout("TxAddReader"@, b, 2) == Ok::<(), SpecVerificationError>(()),
            field_at(b, 2, 0) == v.channel_id,
            field_at(b, 2, 1) == v.tx,
    {
        Self::lemma_canonical(b, v);
        Self::lemma_decoded_wf(b, v);
        Self::lemma_layout(v);
    }
}

/// A funding transaction that is withdrawn.
#[derive(Clone, Debug, PartialEq, Eq)]
pub struct TxRemove {
    pub channel_id: Hash256,
    pub tx: Transaction,
}

/// The mathematical value of a [`TxRemove`].
pub struct SpecTxRemove {
    pub channel_id: Seq<u8>,
    pub tx: Seq<u8>,
}

impl View for TxRemove {
    type V = SpecTxRemove;

    open spec fn view(&self) -> SpecTxRemove {
        SpecTxRemove {
            channel_id: self.channel_id@,
            tx: self.tx@,
        }
    }
}

impl TxRemove {
    /// The molecule bytes of each field, in order.
    pub open spec fn spec_fields(v: SpecTxRemove) -> Seq<Seq<u8>> {
        seq![
            v.channel_id,
            v.tx,
        ]
    }

    /// The molecule bytes of the message.
    pub open spec fn spec_bytes(v: SpecTxRemove) -> Seq<u8> {
        table_bytes(Self::spec_fields(v))
    }

    /// Every key, signature, nonce and script of the message is one that
    /// its library accepts, and every length fits its four-byte header.
    pub open spec fn spec_wf(v: SpecTxRemove) -> bool {
        &&& v.channel_id.len() == 32
        &&& ckb_transaction_check(v.tx) is Ok
    }

    /// The message fits the four-byte total size of molecule.
    pub open spec fn spec_fits(v: SpecTxRemove) -> bool {
        Self::spec_bytes(v).len() < 0x1_0000_0000
    }

    pub open spec fn wf(&self) -> bool {
        Self::spec_wf(self@) && Self::spec_fits(self@)
    }

    /// What molecule's `TxRemoveReader` says of the bytes.
    pub open spec fn spec_check(b: Seq<u8>) -> Result<(), SpecVerificationError> {
        match table_layout("TxRemoveReader"@, b, 2) {
            Err(e) => Err(e),
            Ok(_) => and_then(
                hash_check(field_at(b, 2, 0)),
                ckb_transaction_check(field_at(b, 2, 1)),
            ),
        }
    }

    /// The message in checked bytes, or the first key, signature or nonce
    /// that does not parse.
    pub open spec fn spec_convert(b: Seq<u8>) -> Result<SpecTxRemove, SpecError> {
        Ok(SpecTxRemove { channel_id: field_at(b, 2, 0), tx: field_at(b, 2, 1) })
    }

    /// What decoding the bytes gives: molecule checks the whole message
    /// first, then each key, signature and nonce is parsed in order.
    pub open spec fn spec_decode(b: Seq<u8>) -> Result<SpecTxRemove, SpecError> {
        then_convert(Self::spec_check(b), Self::spec_convert(b))
    }

    /// The molecule bytes of the message.
    pub fn to_molecule_bytes(&self) -> (r: Vec<u8>)
        ensures
            r@ == Self::spec_bytes(self@),
    {
        let mut fs: Vec<Vec<u8>> = Vec::new();
        fs.push(hash_field(&self.channel_id));
        fs.push(transaction_field(&self.tx));
        assert(views(fs@) =~= Self::spec_fields(self@));
        write_table(&fs)
    }

    /// Checks the bytes as molecule's `TxRemoveReader` does.
    pub fn check(b: &[u8]) -> (r: Result<(), VerificationError>)
        ensures
            check_view(r) == Self::spec_check(b@),
    {
        let os = match check_table_layout("TxRemoveReader", b, 2) {
            Ok(os) => os,
            Err(e) => {
                return Err(e);
            },
        };
        assert(os@[0] <= os@[1]);
        assert(os@[1] <= os@[2]);
        let fld0 = &b[os[0]..os[1]];
        let fld1 = &b[os[1]..os[2]];
        match check_hash(fld0) {
            Ok(()) => {},
            Err(e) => {
                return Err(e);
            },
        }
        match check_transaction(fld1) {
            Ok(()) => {},
            Err(e) => {
                return Err(e);
            },
        }
        Ok(())
    }

    fn convert(b: &[u8]) -> (r: Result<Self, Error>)
        requires
            Self::spec_check(b@) == Ok::<(), SpecVerificationError>(()),
        ensures
            result_view(r) == Self::spec_convert(b@),
    {
        let os = match check_table_layout("TxRemoveReader", b, 2) {
            Ok(os) => os,
            Err(e) => {
                return Err(Error::Molecule(e));
            },
        };
        assert(os@[0] <= os@[1]);
        assert(os@[1] <= os@[2]);
        let fld0 = &b[os[0]..os[1]];
        let fld1 = &b[os[1]..os[2]];
        let channel_id = read_hash(fld0);
        let tx = read_transaction(fld1);
        Ok(TxRemove { channel_id, tx })
    }

    /// Decodes the message from its molecule bytes.
    pub fn from_molecule_slice(data: &[u8]) -> (r: Result<Self, Error>)
        ensures
            result_view(r) == Self::spec_decode(data@),
            r matches Ok(m) ==> m.wf(),
    {
        let r = match Self::check(data) {
            Ok(()) => Self::convert(data),
            Err(e) => Err(Error::Molecule(e)),
        };
        proof {
            match &r {
                Ok(m) => Self::lemma_decoded_wf(data@, m@),
                Err(_) => {},
            }
        }
        r
    }

    /// Decoding the bytes of a well-formed message gives the message back.
    pub proof fn lemma_roundtrip(v: SpecTxRemove)
        requires
            Self::spec_wf(v),
            Self::spec_fits(v),
        ensures
            Self::spec_decode(Self::spec_bytes(v)) == Ok::<SpecTxRemove, SpecError>(v),
    {
        let fs = Self::spec_fields(v);
        let b = Self::spec_bytes(v);
        lemma_table_bytes_accepted("TxRemoveReader"@, fs);
        assert(field_at(b, 2, 0) == fs[0]);
        assert(field_at(b, 2, 1) == fs[1]);
        assert(Self::spec_convert(b) == Ok::<SpecTxRemove, SpecError>(v));
    }

    /// Decoding accepts only the bytes that encoding writes: bytes that
    /// decode to a message are that message's bytes.
    pub proof fn lemma_canonical(b: Seq<u8>, v: SpecTxRemove)
        requires
            Self::spec_decode(b) == Ok::<SpecTxRemove, SpecError>(v),
        ensures
            Self::spec_bytes(v) == b,
    {
        lemma_table_canonical("TxRemoveReader"@, b, 2);
        assert(Self::spec_fields(v) =~= fields_of(b, 2));
    }

    /// Every message that decoding gives is well formed, and so encodes to
    /// bytes that decode to it again.
    pub proof fn lemma_decoded_wf(b: Seq<u8>, v: SpecTxRemove)
        requires
            Self::spec_decode(b) == Ok::<SpecTxRemove, SpecError>(v),
        ensures
            Self::spec_wf(v),
            Self::spec_fits(v),
    {
        Self::lemma_canonical(b, v);
        lemma_le_bytes_of_value(b.subrange(0, 4));
        lemma_pow256_values();
    }

    /// The wire layout of a well-formed message: a table of exactly 2
    /// fields, which hold, in this order, `channel_id`, `tx`.
    pub proof fn lemma_layout(v: SpecTxRemove)
        requires
            Self::spec_wf(v),
            Self::spec_fits(v),
        ensures
            table_layout("TxRemoveReader"@, Self::spec_bytes(v), 2) == Ok::<(), SpecVerificationError>(()),
            field_at(Self::spec_bytes(v), 2, 0) == v.channel_id,
            field_at(Self::spec_bytes(v), 2, 1) == v.tx,
    {
        let fs = Self::spec_fields(v);
        let b = Self::spec_bytes(v);
        lemma_table_bytes_accepted("TxRemoveReader"@, fs);
        assert(field_at(b, 2, 0) == fs[0]);
        assert(field_at(b, 2, 1) == fs[1]);
    }

    /// What decoding accepts is laid out as the table of the message it
    /// gives: field by field, the bytes are that field of the message.
    pub proof fn lemma_decoded_layout(b: Seq<u8>, v: SpecTxRemove)
        requires
            Self::spec_decode(b) == Ok::<SpecTxRemove, SpecError>(v),
        ensures
            table_layout("TxRemoveReader"@, b, 2) == Ok::<(), SpecVerificationError>(()),
            field_at(b, 2, 0) == v.channel_id,
            field_at(b, 2, 1) == v.tx,
    {
        Self::lemma_canonical(b, v);
        Self::lemma_decoded_wf(b, v);
        Self::lemma_layout(v);
    }
}

/// The sender has nothing more to add to the funding transaction.
#[derive(Clone, Debug, PartialEq, Eq)]
pub struct TxComplete {
    pub channel_id: Hash256,
}

/// The mathematical value of a [`TxComplete`].
pub struct SpecTxComplete {
    pub channel_id: Seq<u8>,
}

impl View for TxComplete {
    type V = SpecTxComplete;

    open spec fn view(&self) -> SpecTxComplete {
        SpecTxComplete {
            channel_id: self.channel_id@,
        }
    }
}

impl TxComplete {
    /// The molecule bytes of each field, in order.
    pub open spec fn spec_fields(v: SpecTxComplete) -> Seq<Seq<u8>> {
        seq![
            v.channel_id,
        ]
    }

    /// The molecule bytes of the message.
    pub open spec fn spec_bytes(v: SpecTxComplete) -> Seq<u8> {
        table_bytes(Self::spec_fields(v))
    }

    /// Every key, signature, nonce and script of the message is one that
    /// its library accepts, and every length fits its four-byte header.
    pub open spec fn spec_wf(v: SpecTxComplete) -> bool {
        &&& v.channel_id.len() == 32
    }

    /// The message fits the four-byte total size of molecule.
    pub open spec fn spec_fits(v: SpecTxComplete) -> bool {
        true
    }

    pub open spec fn wf(&self) -> bool {
        Self::spec_wf(self@) && Self::spec_fits(self@)
    }

    /// What molecule's `TxCompleteReader` says of the bytes.
    pub open spec fn spec_check(b: Seq<u8>) -> Result<(), SpecVerificationError> {
        match table_layout("TxCompleteReader"@, b, 1) {
            Err(e) => Err(e),
            Ok(_) => hash_check(field_at(b, 1, 0)),
        }
    }

    /// The message in checked bytes, or the first key, signature or nonce
    /// that does not parse.
    pub open spec fn spec_convert(b: Seq<u8>) -> Result<SpecTxComplete, SpecError> {
        Ok(SpecTxComplete { channel_id: field_at(b, 1, 0) })
    }

    /// What decoding the bytes gives: molecule checks the whole message
    /// first, then each key, signature and nonce is parsed in order.
    pub open spec fn spec_decode(b: Seq<u8>) -> Result<SpecTxComplete, SpecError> {
        then_convert(Self::spec_check(b), Self::spec_convert(b))
    }

    /// The molecule bytes of the message.
    pub fn to_molecule_bytes(&self) -> (r: Vec<u8>)
        ensures
            r@ == Self::spec_bytes(self@),
    {
        let mut fs: Vec<Vec<u8>> = Vec::new();
        fs.push(hash_field(&self.channel_id));
        assert(views(fs@) =~= Self::spec_fields(self@));
        write_table(&fs)
    }

    /// Checks the bytes as molecule's `TxCompleteReader` does.
    pub fn check(b: &[u8]) -> (r: Result<(), VerificationError>)
        ensures
            check_view(r) == Self::spec_check(b@),
    {
        let os = match check_table_layout("TxCompleteReader", b, 1) {
            Ok(os) => os,
            Err(e) => {
                return Err(e);
            },
        };
        assert(os@[0] <= os@[1]);
        let fld0 = &b[os[0]..os[1]];
        match check_hash(fld0) {
            Ok(()) => {},
            Err(e) => {
                return Err(e);
            },
        }
        Ok(())
    }

    fn convert(b: &[u8]) -> (r: Result<Self, Error>)
        requires
            Self::spec_check(b@) == Ok::<(), SpecVerificationError>(()),
        ensures
            result_view(r) == Self::spec_convert(b@),
    {
        let os = match check_table_layout("TxCompleteReader", b, 1) {
            Ok(os) => os,
            Err(e) => {
                return Err(Error::Molecule(e));
            },
        };
        assert(os@[0] <= os@[1]);
        let fld0 = &b[os[0]..os[1]];
        let channel_id = read_hash(fld0);
        Ok(TxComplete { channel_id })
    }

    /// Decodes the message from its molecule bytes.
    pub fn from_molecule_slice(data: &[u8]) -> (r: Result<Self, Error>)
        ensures
            result_view(r) == Self::spec_decode(data@),
            r matches Ok(m) ==> m.wf(),
    {
        let r = match Self::check(data) {
            Ok(()) => Self::convert(data),
            Err(e) => Err(Error::Molecule(e)),
        };
        proof {
            match &r {
                Ok(m) => Self::lemma_decoded_wf(data@, m@),
                Err(_) => {},
            }
        }
        r
    }

    /// Decoding the bytes of a well-formed message gives the message back.
    pub proof fn lemma_roundtrip(v: SpecTxComplete)
        requires
            Self::spec_wf(v),
            Self::spec_fits(v),
        ensures
            Self::spec_decode(Self::spec_bytes(v)) == Ok::<SpecTxComplete, SpecError>(v),
    {
        let fs = Self::spec_fields(v);
        let b = Self::spec_bytes(v);
        Self::lemma_size(v);
        lemma_table_bytes_accepted("TxCompleteReader"@, fs);
        assert(field_at(b, 1, 0) == fs[0]);
        assert(Self::spec_convert(b) == Ok::<SpecTxComplete, SpecError>(v));
    }

    /// Decoding accepts only the bytes that encoding writes: bytes that
    /// decode to a message are that message's bytes.
    pub proof fn lemma_canonical(b: Seq<u8>, v: SpecTxComplete)
        requires
            Self::spec_decode(b) == Ok::<SpecTxComplete, SpecError>(v),
        ensures
            Self::spec_bytes(v) == b,
    {
        lemma_table_canonical("TxCompleteReader"@, b, 1);
        assert(Self::spec_fields(v) =~= fields_of(b, 1));
    }

    /// Every message that decoding gives is well formed, and so encodes to
    /// bytes that decode to it again.
    pub proof fn lemma_decoded_wf(b: Seq<u8>, v: SpecTxComplete)
        requires
            Self::spec_decode(b) == Ok::<SpecTxComplete, SpecError>(v),
        ensures
            Self::spec_wf(v),
            Self::spec_fits(v),
    {
        Self::lemma_canonical(b, v);
        lemma_le_bytes_of_value(b.subrange(0, 4));
        lemma_pow256_values();
    }

    /// The wire layout of a well-formed message: a table of exactly 1
    /// fields, which hold, in this order, `channel_id`.
    pub proof fn lemma_layout(v: SpecTxComplete)
        requires
            Self::spec_wf(v),
            Self::spec_fits(v),
        ensures
            table_layout("TxCompleteReader"@, Self::spec_bytes(v), 1) == Ok::<(), SpecVerificationError>(()),
            field_at(Self::spec_bytes(v), 1, 0) == v.channel_id,
    {
        let fs = Self::spec_fields(v);
        let b = Self::spec_bytes(v);
        Self::lemma_size(v);
        lemma_table_bytes_accepted("TxCompleteReader"@, fs);
        assert(field_at(b, 1, 0) == fs[0]);
    }

    /// What decoding accepts is laid out as the table of the message it
    /// gives: field by field, the bytes are that field of the message.
    pub proof fn lemma_decoded_layout(b: Seq<u8>, v: SpecTxComplete)
        requires
            Self::spec_decode(b) == Ok::<SpecTxComplete, SpecError>(v),
        ensures
            table_layout("TxCompleteReader"@, b, 1) == Ok::<(), SpecVerificationError>(()),
            field_at(b, 1, 0) == v.channel_id,
    {
        Self::lemma_canonical(b, v);
        Self::lemma_decoded_wf(b, v);
        Self::lemma_layout(v);
    }

    /// The bytes of a well-formed message are short.
    pub proof fn lemma_size(v: SpecTxComplete)
        requires
            Self::spec_wf(v),
        ensures
            Self::spec_bytes(v).len() <= 40,
    {
        let fs = Self::spec_fields(v);
        assert forall|i: int| 0 <= i < fs.len() implies (#[trigger] fs[i]).len() <= 32 by {}
        lemma_concat_len_le(fs, 32);
        lemma_numbers_bytes_len(table_header(fs));
    }
}

/// The funding negotiation is abandoned, with a message.
#[derive(Clone, Debug, PartialEq, Eq)]
pub struct TxAbort {
    pub channel_id: Hash256,
    pub message: Vec<u8>,
}

/// The mathematical value of a [`TxAbort`].
pub struct SpecTxAbort {
    pub channel_id: Seq<u8>,
    pub message: Seq<u8>,
}

impl View for TxAbort {
    type V = SpecTxAbort;

    open spec fn view(&self) -> SpecTxAbort {
        SpecTxAbort {
            channel_id: self.channel_id@,
            message: self.message@,
        }
    }
}

impl TxAbort {
    /// The molecule bytes of each field, in order.
    pub open spec fn spec_fields(v: SpecTxAbort) -> Seq<Seq<u8>> {
        seq![
            v.channel_id,
            bytes_bytes(v.message),
        ]
    }

    /// The molecule bytes of the message.
    pub open spec fn spec_bytes(v: SpecTxAbort) -> Seq<u8> {
        table_bytes(Self::spec_fields(v))
    }

    /// Every key, signature, nonce and script of the message is one that
    /// its library accepts, and every length fits its four-byte header.
    pub open spec fn spec_wf(v: SpecTxAbort) -> bool {
        &&& v.channel_id.len() == 32
        &&& v.message.len() < 0x1_0000_0000
    }

    /// The message fits the four-byte total size of molecule.
    pub open spec fn spec_fits(v: SpecTxAbort) -> bool {
        Self::spec_bytes(v).len() < 0x1_0000_0000
    }

    pub open spec fn wf(&self) -> bool {
        Self::spec_wf(self@) && Self::spec_fits(self@)
    }

    /// What molecule's `TxAbortReader` says of the bytes.
    pub open spec fn spec_check(b: Seq<u8>) -> Result<(), SpecVerificationError> {
        match table_layout("TxAbortReader"@, b, 2) {
            Err(e) => Err(e),
            Ok(_) => and_then(
                hash_check(field_at(b, 2, 0)),
                bytes_check(field_at(b, 2, 1)),
            ),
        }
    }

    /// The message in checked bytes, or the first key, signature or nonce
    /// that does not parse.
    pub open spec fn spec_convert(b: Seq<u8>) -> Result<SpecTxAbort, SpecError> {
        Ok(SpecTxAbort { channel_id: field_at(b, 2, 0), message: bytes_value(field_at(b, 2, 1)) })
    }

    /// What decoding the bytes gives: molecule checks the whole message
    /// first, then each key, signature and nonce is parsed in order.
    pub open spec fn spec_decode(b: Seq<u8>) -> Result<SpecTxAbort, SpecError> {
        then_convert(Self::spec_check(b), Self::spec_convert(b))
    }

    /// The molecule bytes of the message.
    pub fn to_molecule_bytes(&self) -> (r: Vec<u8>)
        ensures
            r@ == Self::spec_bytes(self@),
    {
        let mut fs: Vec<Vec<u8>> = Vec::new();
        fs.push(hash_field(&self.channel_id));
        fs.push(bytes_field(self.message.as_slice()));
        assert(views(fs@) =~= Self::spec_fields(self@));
        write_table(&fs)
    }

    /// Checks the bytes as molecule's `TxAbortReader` does.
    pub fn check(b: &[u8]) -> (r: Result<(), VerificationError>)
        ensures
            check_view(r) == Self::spec_check(b@),
    {
        let os = match check_table_layout("TxAbortReader", b, 2) {
            Ok(os) => os,
            Err(e) => {
                return Err(e);
            },
        };
        assert(os@[0] <= os@[1]);
        assert(os@[1] <= os@[2]);
        let fld0 = &b[os[0]..os[1]];
        let fld1 = &b[os[1]..os[2]];
        match check_hash(fld0) {
            Ok(()) => {},
            Err(e) => {
                return Err(e);
            },
        }
        match check_bytes(fld1) {
            Ok(()) => {},
            Err(e) => {
                return Err(e);
            },
        }
        Ok(())
    }

    fn convert(b: &[u8]) -> (r: Result<Self, Error>)
        requires
            Self::spec_check(b@) == Ok::<(), SpecVerificationError>(()),
        ensures
            result_view(r) == Self::spec_convert(b@),
    {
        let os = match check_table_layout("TxAbortReader", b, 2) {
            Ok(os) => os,
            Err(e) => {
                return Err(Error::Molecule(e));
            },
        };
        assert(os@[0] <= os@[1]);
        assert(os@[1] <= os@[2]);
        let fld0 = &b[os[0]..os[1]];
        let fld1 = &b[os[1]..os[2]];
        let channel_id = read_hash(fld0);
        let message = read_bytes(fld1);
        Ok(TxAbort { channel_id, message })
    }

    /// Decodes the message from its molecule bytes.
    pub fn from_molecule_slice(data: &[u8]) -> (r: Result<Self, Error>)
        ensures
            result_view(r) == Self::spec_decode(data@),
            r matches Ok(m) ==> m.wf(),
    {
        let r = match Self::check(data) {
            Ok(()) => Self::convert(data),
            Err(e) => Err(Error::Molecule(e)),
        };
        proof {
            match &r {
                Ok(m) => Self::lemma_decoded_wf(data@, m@),
                Err(_) => {},
            }
        }
        r
    }

    /// Decoding the bytes of a well-formed message gives the message back.
    pub proof fn lemma_roundtrip(v: SpecTxAbort)
        requires
            Self::spec_wf(v),
            Self::spec_fits(v),
        ensures
            Self::spec_decode(Self::spec_bytes(v)) == Ok::<SpecTxAbort, SpecError>(v),
    {
        let fs = Self::spec_fields(v);
        let b = Self::spec_bytes(v);
        lemma_bytes_field(v.message);
        lemma_table_bytes_accepted("TxAbortReader"@, fs);
        assert(field_at(b, 2, 0) == fs[0]);
        assert(field_at(b, 2, 1) == fs[1]);
        assert(Self::spec_convert(b) == Ok::<SpecTxAbort, SpecError>(v));
    }

    /// Decoding accepts only the bytes that encoding writes: bytes that
    /// decode to a message are that message's bytes.
    pub proof fn lemma_canonical(b: Seq<u8>, v: SpecTxAbort)
        requires
            Self::spec_decode(b) == Ok::<SpecTxAbort, SpecError>(v),
        ensures
            Self::spec_bytes(v) == b,
    {
        lemma_table_canonical("TxAbortReader"@, b, 2);
        lemma_bytes_canonical(field_at(b, 2, 1));
        assert(Self::spec_fields(v) =~= fields_of(b, 2));
    }

    /// Every message that decoding gives is well formed, and so encodes to
    /// bytes that decode to it again.
    pub proof fn lemma_decoded_wf(b: Seq<u8>, v: SpecTxAbort)
        requires
            Self::spec_decode(b) == Ok::<SpecTxAbort, SpecError>(v),
        ensures
            Self::spec_wf(v),
            Self::spec_fits(v),
    {
        Self::lemma_canonical(b, v);
        lemma_le_bytes_of_value(b.subrange(0, 4));
        lemma_pow256_values();
        lemma_bytes_value_fits(field_at(b, 2, 1));
    }

    /// The wire layout of a well-formed message: a table of exactly 2
    /// fields, which hold, in this order, `channel_id`, `message`.
    pub proof fn lemma_layout(v: SpecTxAbort)
        requires
            Self::spec_wf(v),
            Self::spec_fits(v),
        ensures
            table_layout("TxAbortReader"@, Self::spec_bytes(v), 2) == Ok::<(), SpecVerificationError>(()),
            field_at(Self::spec_bytes(v), 2, 0) == v.channel_id,
            field_at(Self::spec_bytes(v), 2, 1) == le_bytes(v.message.len(), 4) + v.message,
    {
        let fs = Self::spec_fields(v);
        let b = Self::spec_bytes(v);
        lemma_table_bytes_accepted("TxAbortReader"@, fs);
        assert(field_at(b, 2, 0) == fs[0]);
        assert(field_at(b, 2, 1) == fs[1]);
    }

    /// What decoding accepts is laid out as the table of the message it
    /// gives: field by field, the bytes are that field of the message.
    pub proof fn lemma_decoded_layout(b: Seq<u8>, v: SpecTxAbort)
        requires
            Self::spec_decode(b) == Ok::<SpecTxAbort, SpecError>(v),
        ensures
            table_layout("TxAbortReader"@, b, 2) == Ok::<(), SpecVerificationError>(()),
            field_at(b, 2, 0) == v.channel_id,
            field_at(b, 2, 1) == le_bytes(v.message.len(), 4) + v.message,
    {
        Self::lemma_canonical(b, v);
        Self::lemma_decoded_wf(b, v);
        Self::lemma_layout(v);
    }
}

/// A request to replace the funding transaction at a new fee rate.
#[derive(Clone, Debug, PartialEq, Eq)]
pub struct TxInitRBF {
    pub channel_id: Hash256,
    pub fee_rate: u64,
}

/// The mathematical value of a [`TxInitRBF`].
pub struct SpecTxInitRBF {
    pub channel_id: Seq<u8>,
    pub fee_rate: u64,
}

impl View for TxInitRBF {
    type V = SpecTxInitRBF;

    open spec fn view(&self) -> SpecTxInitRBF {
        SpecTxInitRBF {
            channel_id: self.channel_id@,
            fee_rate: self.fee_rate,
        }
    }
}

impl TxInitRBF {
    /// The molecule bytes of each field, in order.
    pub open spec fn spec_fields(v: SpecTxInitRBF) -> Seq<Seq<u8>> {
        seq![
            v.channel_id,
            u64_bytes(v.fee_rate),
        ]
    }

    /// The molecule bytes of the message.
    pub open spec fn spec_bytes(v: SpecTxInitRBF) -> Seq<u8> {
        table_bytes(Self::spec_fields(v))
    }

    /// Every key, signature, nonce and script of the message is one that
    /// its library accepts, and every length fits its four-byte header.
    pub open spec fn spec_wf(v: SpecTxInitRBF) -> bool {
        &&& v.channel_id.len() == 32
    }

    /// The message fits the four-byte total size of molecule.
    pub open spec fn spec_fits(v: SpecTxInitRBF) -> bool {
        true
    }

    pub open spec fn wf(&self) -> bool {
        Self::spec_wf(self@) && Self::spec_fits(self@)
    }

    /// What molecule's `TxInitRBFReader` says of the bytes.
    pub open spec fn spec_check(b: Seq<u8>) -> Result<(), SpecVerificationError> {
        match table_layout("TxInitRBFReader"@, b, 2) {
            Err(e) => Err(e),
            Ok(_) => and_then(
                hash_check(field_at(b, 2, 0)),
                u64_check(field_at(b, 2, 1)),
            ),
        }
    }

    /// The message in checked bytes, or the first key, signature or nonce
    /// that does not parse.
    pub open spec fn spec_convert(b: Seq<u8>) -> Result<SpecTxInitRBF, SpecError> {
        Ok(SpecTxInitRBF { channel_id: field_at(b, 2, 0), fee_rate: u64_value(field_at(b, 2, 1)) })
    }

    /// What decoding the bytes gives: molecule checks the whole message
    /// first, then each key, signature and nonce is parsed in order.
    pub open spec fn spec_decode(b: Seq<u8>) -> Result<SpecTxInitRBF, SpecError> {
        then_convert(Self::spec_check(b), Self::spec_convert(b))
    }

    /// The molecule bytes of the message.
    pub fn to_molecule_bytes(&self) -> (r: Vec<u8>)
        ensures
            r@ == Self::spec_bytes(self@),
    {
        let mut fs: Vec<Vec<u8>> = Vec::new();
        fs.push(hash_field(&self.channel_id));
        fs.push(u64_field(self.fee_rate));
        assert(views(fs@) =~= Self::spec_fields(self@));
        write_table(&fs)
    }

    /// Checks the bytes as molecule's `TxInitRBFReader` does.
    pub fn check(b: &[u8]) -> (r: Result<(), VerificationError>)
        ensures
            check_view(r) == Self::spec_check(b@),
    {
        let os = match check_table_layout("TxInitRBFReader", b, 2) {
            Ok(os) => os,
            Err(e) => {
                return Err(e);
            },
        };
        assert(os@[0] <= os@[1]);
        assert(os@[1] <= os@[2]);
        let fld0 = &b[os[0]..os[1]];
        let fld1 = &b[os[1]..os[2]];
        match check_hash(fld0) {
            Ok(()) => {},
            Err(e) => {
                return Err(e);
            },
        }
        match check_u64(fld1) {
            Ok(()) => {},
            Err(e) => {
                return Err(e);
            },
        }
        Ok(())
    }

    fn convert(b: &[u8]) -> (r: Result<Self, Error>)
        requires
            Self::spec_check(b@) == Ok::<(), SpecVerificationError>(()),
        ensures
            result_view(r) == Self::spec_convert(b@),
    {
        let os = match check_table_layout("TxInitRBFReader", b, 2) {
            Ok(os) => os,
            Err(e) => {
                return Err(Error::Molecule(e));
            },
        };
        assert(os@[0] <= os@[1]);
        assert(os@[1] <= os@[2]);
        let fld0 = &b[os[0]..os[1]];
        let fld1 = &b[os[1]..os[2]];
        let channel_id = read_hash(fld0);
        let fee_rate = read_u64(fld1);
        Ok(TxInitRBF { channel_id, fee_rate })
    }

    /// Decodes the message from its molecule bytes.
    pub fn from_molecule_slice(data: &[u8]) -> (r: Result<Self, Error>)
        ensures
            result_view(r) == Self::spec_decode(data@),
            r matches Ok(m) ==> m.wf(),
    {
        let r = match Self::check(data) {
            Ok(()) => Self::convert(data),
            Err(e) => Err(Error::Molecule(e)),
        };
        proof {
            match &r {
                Ok(m) => Self::lemma_decoded_wf(data@, m@),
                Err(_) => {},
            }
        }
        r
    }

    /// Decoding the bytes of a well-formed message gives the message back.
    pub proof fn lemma_roundtrip(v: SpecTxInitRBF)
        requires
            Self::spec_wf(v),
            Self::spec_fits(v),
        ensures
            Self::spec_decode(Self::spec_bytes(v)) == Ok::<SpecTxInitRBF, SpecError>(v),
    {
        let fs = Self::spec_fields(v);
        let b = Self::spec_bytes(v);
        lemma_u64_field(v.fee_rate);
        Self::lemma_size(v);
        lemma_table_bytes_accepted("TxInitRBFReader"@, fs);
        assert(field_at(b, 2, 0) == fs[0]);
        assert(field_at(b, 2, 1) == fs[1]);
        assert(Self::spec_convert(b) == Ok::<SpecTxInitRBF, SpecError>(v));
    }

    /// Decoding accepts only the bytes that encoding writes: bytes that
    /// decode to a message are that message's bytes.
    pub proof fn lemma_canonical(b: Seq<u8>, v: SpecTxInitRBF)
        requires
            Self::spec_decode(b) == Ok::<SpecTxInitRBF, SpecError>(v),
        ensures
            Self::spec_bytes(v) == b,
    {
        lemma_table_canonical("TxInitRBFReader"@, b, 2);
        lemma_u64_canonical(field_at(b, 2, 1));
        assert(Self::spec_fields(v) =~= fields_of(b, 2));
    }

    /// Every message that decoding gives is well formed, and so encodes to
    /// bytes that decode to it again.
    pub proof fn lemma_decoded_wf(b: Seq<u8>, v: SpecTxInitRBF)
        requires
            Self::spec_decode(b) == Ok::<SpecTxInitRBF, SpecError>(v),
        ensures
            Self::spec_wf(v),
            Self::spec_fits(v),
    {
        Self::lemma_canonical(b, v);
        lemma_le_bytes_of_value(b.subrange(0, 4));
        lemma_pow256_values();
    }

    /// The wire layout of a well-formed message: a table of exactly 2
    /// fields, which hold, in this order, `channel_id`, `fee_rate`.
    pub proof fn lemma_layout(v: SpecTxInitRBF)
        requires
            Self::spec_wf(v),
            Self::spec_fits(v),
        ensures
            table_layout("TxInitRBFReader"@, Self::spec_bytes(v), 2) == Ok::<(), SpecVerificationError>(()),
            field_at(Self::spec_bytes(v), 2, 0) == v.channel_id,
            field_at(Self::spec_bytes(v), 2, 1) == le_bytes(v.fee_rate as nat, 8),
    {
        let fs = Self::spec_fields(v);
        let b = Self::spec_bytes(v);
        Self::lemma_size(v);
        lemma_table_bytes_accepted("TxInitRBFReader"@, fs);
        assert(field_at(b, 2, 0) == fs[0]);
        assert(field_at(b, 2, 1) == fs[1]);
    }

    /// What decoding accepts is laid out as the table of the message it
    /// gives: field by field, the bytes are that field of the message.
    pub proof fn lemma_decoded_layout(b: Seq<u8>, v: SpecTxInitRBF)
        requires
            Self::spec_decode(b) == Ok::<SpecTxInitRBF, SpecError>(v),
        ensures
            table_layout("TxInitRBFReader"@, b, 2) == Ok::<(), SpecVerificationError>(()),
            field_at(b, 2, 0) == v.channel_id,
            field_at(b, 2, 1) == le_bytes(v.fee_rate as nat, 8),
    {
        Self::lemma_canonical(b, v);
        Self::lemma_decoded_wf(b, v);
        Self::lemma_layout(v);
    }

    /// The bytes of a well-formed message are short.
    pub proof fn lemma_size(v: SpecTxInitRBF)
        requires
            Self::spec_wf(v),
        ensures
            Self::spec_bytes(v).len() <= 76,
    {
        let fs = Self::spec_fields(v);
        lemma_le_bytes_len(v.fee_rate as nat, 8);
        assert forall|i: int| 0 <= i < fs.len() implies (#[trigger] fs[i]).len() <= 32 by {}
        lemma_concat_len_le(fs, 32);
        lemma_numbers_bytes_len(table_header(fs));
    }
}

/// The answer to a `TxInitRBF`.
#[derive(Clone, Debug, PartialEq, Eq)]
pub struct TxAckRBF {
    pub channel_id: Hash256,
}

/// The mathematical value of a [`TxAckRBF`].
pub struct SpecTxAckRBF {
    pub channel_id: Seq<u8>,
}

impl View for TxAckRBF {
    type V = SpecTxAckRBF;

    open spec fn view(&self) -> SpecTxAckRBF {
        SpecTxAckRBF {
            channel_id: self.channel_id@,
        }
    }
}

impl TxAckRBF {
    /// The molecule bytes of each field, in order.
    pub open spec fn spec_fields(v: SpecTxAckRBF) -> Seq<Seq<u8>> {
        seq![
            v.channel_id,
        ]
    }

    /// The molecule bytes of the message.
    pub open spec fn spec_bytes(v: SpecTxAckRBF) -> Seq<u8> {
        table_bytes(Self::spec_fields(v))
    }

    /// Every key, signature, nonce and script of the message is one that
    /// its library accepts, and every length fits its four-byte header.
    pub open spec fn spec_wf(v: SpecTxAckRBF) -> bool {
        &&& v.channel_id.len() == 32
    }

    /// The message fits the four-byte total size of molecule.
    pub open spec fn spec_fits(v: SpecTxAckRBF) -> bool {
        true
    }

    pub open spec fn wf(&self) -> bool {
        Self::spec_wf(self@) && Self::spec_fits(self@)
    }

    /// What molecule's `TxAckRBFReader` says of the bytes.
    pub open spec fn spec_check(b: Seq<u8>) -> Result<(), SpecVerificationError> {
        match table_layout("TxAckRBFReader"@, b, 1) {
            Err(e) => Err(e),
            Ok(_) => hash_check(field_at(b, 1, 0)),
        }
    }

    /// The message in checked bytes, or the first key, signature or nonce
    /// that does not parse.
    pub open spec fn spec_convert(b: Seq<u8>) -> Result<SpecTxAckRBF, SpecError> {
        Ok(SpecTxAckRBF { channel_id: field_at(b, 1, 0) })
    }

    /// What decoding the bytes gives: molecule checks the whole message
    /// first, then each key, signature and nonce is parsed in order.
    pub open spec fn spec_decode(b: Seq<u8>) -> Result<SpecTxAckRBF, SpecError> {
        then_convert(Self::spec_check(b), Self::spec_convert(b))
    }

    /// The molecule bytes of the message.
    pub fn to_molecule_bytes(&self) -> (r: Vec<u8>)
        ensures
            r@ == Self::spec_bytes(self@),
    {
        let mut fs: Vec<Vec<u8>> = Vec::new();
        fs.push(hash_field(&self.channel_id));
        assert(views(fs@) =~= Self::spec_fields(self@));
        write_table(&fs)
    }

    /// Checks the bytes as molecule's `TxAckRBFReader` does.
    pub fn check(b: &[u8]) -> (r: Result<(), VerificationError>)
        ensures
            check_view(r) == Self::spec_check(b@),
    {
        let os = match check_table_layout("TxAckRBFReader", b, 1) {
            Ok(os) => os,
            Err(e) => {
                return Err(e);
            },
        };
        assert(os@[0] <= os@[1]);
        let fld0 = &b[os[0]..os[1]];
        match check_hash(fld0) {
            Ok(()) => {},
            Err(e) => {
                return Err(e);
            },
        }
        Ok(())
    }

    fn convert(b: &[u8]) -> (r: Result<Self, Error>)
        requires
            Self::spec_check(b@) == Ok::<(), SpecVerificationError>(()),
        ensures
            result_view(r) == Self::spec_convert(b@),
    {
        let os = match check_table_layout("TxAckRBFReader", b, 1) {
            Ok(os) => os,
            Err(e) => {
                return Err(Error::Molecule(e));
            },
        };
        assert(os@[0] <= os@[1]);
        let fld0 = &b[os[0]..os[1]];
        let channel_id = read_hash(fld0);
        Ok(TxAckRBF { channel_id })
    }

    /// Decodes the message from its molecule bytes.
    pub fn from_molecule_slice(data: &[u8]) -> (r: Result<Self, Error>)
        ensures
            result_view(r) == Self::spec_decode(data@),
            r matches Ok(m) ==> m.wf(),
    {
        let r = match Self::check(data) {
            Ok(()) => Self::convert(data),
            Err(e) => Err(Error::Molecule(e)),
        };
        proof {
            match &r {
                Ok(m) => Self::lemma_decoded_wf(data@, m@),
                Err(_) => {},
            }
        }
        r
    }

    /// Decoding the bytes of a well-formed message gives the message back.
    pub proof fn lemma_roundtrip(v: SpecTxAckRBF)
        requires
            Self::spec_wf(v),
            Self::spec_fits(v),
        ensures
            Self::spec_decode(Self::spec_bytes(v)) == Ok::<SpecTxAckRBF, SpecError>(v),
    {
        let fs = Self::spec_fields(v);
        let b = Self::spec_bytes(v);
        Self::lemma_size(v);
        lemma_table_bytes_accepted("TxAckRBFReader"@, fs);
        assert(field_at(b, 1, 0) == fs[0]);
        assert(Self::spec_convert(b) == Ok::<SpecTxAckRBF, SpecError>(v));
    }

    /// Decoding accepts only the bytes that encoding writes: bytes that
    /// decode to a message are that message's bytes.
    pub proof fn lemma_canonical(b: Seq<u8>, v: SpecTxAckRBF)
        requires
            Self::spec_decode(b) == Ok::<SpecTxAckRBF, SpecError>(v),
        ensures
            Self::spec_bytes(v) == b,
    {
        lemma_table_canonical("TxAckRBFReader"@, b, 1);
        assert(Self::spec_fields(v) =~= fields_of(b, 1));
    }

    /// Every message that decoding gives is well formed, and so encodes to
    /// bytes that decode to it again.
    pub proof fn lemma_decoded_wf(b: Seq<u8>, v: SpecTxAckRBF)
        requires
            Self::spec_decode(b) == Ok::<SpecTxAckRBF, SpecError>(v),
        ensures
            Self::spec_wf(v),
            Self::spec_fits(v),
    {
        Self::lemma_canonical(b, v);
        lemma_le_bytes_of_value(b.subrange(0, 4));
        lemma_pow256_values();
    }

    /// The wire layout of a well-formed message: a table of exactly 1
    /// fields, which hold, in this order, `channel_id`.
    pub proof fn lemma_layout(v: SpecTxAckRBF)
        requires
            Self::spec_wf(v),
            Self::spec_fits(v),
        ensures
            table_layout("TxAckRBFReader"@, Self::spec_bytes(v), 1) == Ok::<(), SpecVerificationError>(()),
            field_at(Self::spec_bytes(v), 1, 0) == v.channel_id,
    {
        let fs = Self::spec_fields(v);
        let b = Self::spec_bytes(v);
        Self::lemma_size(v);
        lemma_table_bytes_accepted("TxAckRBFReader"@, fs);
        assert(field_at(b, 1, 0) == fs[0]);
    }

    /// What decoding accepts is laid out as the table of the message it
    /// gives: field by field, the bytes are that field of the message.
    pub proof fn lemma_decoded_layout(b: Seq<u8>, v: SpecTxAckRBF)
        requires
            Self::spec_decode(b) == Ok::<SpecTxAckRBF, SpecError>(v),
        ensures
            table_layout("TxAckRBFReader"@, b, 1) == Ok::<(), SpecVerificationError>(()),
            field_at(b, 1, 0) == v.channel_id,
    {
        Self::lemma_canonical(b, v);
        Self::lemma_decoded_wf(b, v);
        Self::lemma_layout(v);
    }

    /// The bytes of a well-formed message are short.
    pub proof fn lemma_size(v: SpecTxAckRBF)
        requires
            Self::spec_wf(v),
        ensures
            Self::spec_bytes(v).len() <= 40,
    {
        let fs = Self::spec_fields(v);
        assert forall|i: int| 0 <= i < fs.len() implies (#[trigger] fs[i]).len() <= 32 by {}
        lemma_concat_len_le(fs, 32);
        lemma_numbers_bytes_len(table_header(fs));
    }
}

/// A request to close the channel to a script.
#[derive(Clone, Debug, PartialEq, Eq)]
pub struct Shutdown {
    pub channel_id: Hash256,
    pub close_script: Script,
}

/// The mathematical value of a [`Shutdown`].
pub struct SpecShutdown {
    pub channel_id: Seq<u8>,
    pub close_script: Seq<u8>,
}

impl View for Shutdown {
    type V = SpecShutdown;

    open spec fn view(&self) -> SpecShutdown {
        SpecShutdown {
            channel_id: self.channel_id@,
            close_script: self.close_script@,
        }
    }
}

impl Shutdown {
    /// The molecule bytes of each field, in order.
    pub open spec fn spec_fields(v: SpecShutdown) -> Seq<Seq<u8>> {
        seq![
            v.channel_id,
            v.close_script,
        ]
    }

    /// The molecule bytes of the message.
    pub open spec fn spec_bytes(v: SpecShutdown) -> Seq<u8> {
        table_bytes(Self::spec_fields(v))
    }

    /// Every key, signature, nonce and script of the message is one that
    /// its library accepts, and every length fits its four-byte header.
    pub open spec fn spec_wf(v: SpecShutdown) -> bool {
        &&& v.channel_id.len() == 32
        &&& ckb_script_check(v.close_script) is Ok
    }

    /// The message fits the four-byte total size of molecule.
    pub open spec fn spec_fits(v: SpecShutdown) -> bool {
        Self::spec_bytes(v).len() < 0x1_0000_0000
    }

    pub open spec fn wf(&self) -> bool {
        Self::spec_wf(self@) && Self::spec_fits(self@)
    }

    /// What molecule's `ShutdownReader` says of the bytes.
    pub open spec fn spec_check(b: Seq<u8>) -> Result<(), SpecVerificationError> {
        match table_layout("ShutdownReader"@, b, 2) {
            Err(e) => Err(e),
            Ok(_) => and_then(
                hash_check(field_at(b, 2, 0)),
                ckb_script_check(field_at(b, 2, 1)),
            ),
        }
    }

    /// The message in checked bytes, or the first key, signature or nonce
    /// that does not parse.
    pub open spec fn spec_convert(b: Seq<u8>) -> Result<SpecShutdown, SpecError> {
        Ok(SpecShutdown { channel_id: field_at(b, 2, 0), close_script: field_at(b, 2, 1) })
    }

    /// What decoding the bytes gives: molecule checks the whole message
    /// first, then each key, signature and nonce is parsed in order.
    pub open spec fn spec_decode(b: Seq<u8>) -> Result<SpecShutdown, SpecError> {
        then_convert(Self::spec_check(b), Self::spec_convert(b))
    }

    /// The molecule bytes of the message.
    pub fn to_molecule_bytes(&self) -> (r: Vec<u8>)
        ensures
            r@ == Self::spec_bytes(self@),
    {
        let mut fs: Vec<Vec<u8>> = Vec::new();
        fs.push(hash_field(&self.channel_id));
        fs.push(script_field(&self.close_script));
        assert(views(fs@) =~= Self::spec_fields(self@));
        write_table(&fs)
    }

    /// Checks the bytes as molecule's `ShutdownReader` does.
    pub fn check(b: &[u8]) -> (r: Result<(), VerificationError>)
        ensures
            check_view(r) == Self::spec_check(b@),
    {
        let os = match check_table_layout("ShutdownReader", b, 2) {
            Ok(os) => os,
            Err(e) => {
                return Err(e);
            },
        };
        assert(os@[0] <= os@[1]);
        assert(os@[1] <= os@[2]);
        let fld0 = &b[os[0]..os[1]];
        let fld1 = &b[os[1]..os[2]];
        match check_hash(fld0) {
            Ok(()) => {},
            Err(e) => {
                return Err(e);
            },
        }
        match check_script(fld1) {
            Ok(()) => {},
            Err(e) => {
                return Err(e);
            },
        }
        Ok(())
    }

    fn convert(b: &[u8]) -> (r: Result<Self, Error>)
        requires
            Self::spec_check(b@) == Ok::<(), SpecVerificationError>(()),
        ensures
            result_view(r) == Self::spec_convert(b@),
    {
        let os = match check_table_layout("ShutdownReader", b, 2) {
            Ok(os) => os,
            Err(e) => {
                return Err(Error::Molecule(e));
            },
        };
        assert(os@[0] <= os@[1]);
        assert(os@[1] <= os@[2]);
        let fld0 = &b[os[0]..os[1]];
        let fld1 = &b[os[1]..os[2]];
        let channel_id = read_hash(fld0);
        let close_script = read_script(fld1);
        Ok(Shutdown { channel_id, close_script })
    }

    /// Decodes the message from its molecule bytes.
    pub fn from_molecule_slice(data: &[u8]) -> (r: Result<Self, Error>)
        ensures
            result_view(r) == Self::spec_decode(data@),
            r matches Ok(m) ==> m.wf(),
    {
        let r = match Self::check(data) {
            Ok(()) => Self::convert(data),
            Err(e) => Err(Error::Molecule(e)),
        };
        proof {
            match &r {
                Ok(m) => Self::lemma_decoded_wf(data@, m@),
                Err(_) => {},
            }
        }
        r
    }

    /// Decoding the bytes of a well-formed message gives the message back.
    pub proof fn lemma_roundtrip(v: SpecShutdown)
        requires
            Self::spec_wf(v),
            Self::spec_fits(v),
        ensures
            Self::spec_decode(Self::spec_bytes(v)) == Ok::<SpecShutdown, SpecError>(v),
    {
        let fs = Self::spec_fields(v);
        let b = Self::spec_bytes(v);
        lemma_table_bytes_accepted("ShutdownReader"@, fs);
        assert(field_at(b, 2, 0) == fs[0]);
        assert(field_at(b, 2, 1) == fs[1]);
        assert(Self::spec_convert(b) == Ok::<SpecShutdown, SpecError>(v));
    }

    /// Decoding accepts only the bytes that encoding writes: bytes that
    /// decode to a message are that message's bytes.
    pub proof fn lemma_canonical(b: Seq<u8>, v: SpecShutdown)
        requires
            Self::spec_decode(b) == Ok::<SpecShutdown, SpecError>(v),
        ensures
            Self::spec_bytes(v) == b,
    {
        lemma_table_canonical("ShutdownReader"@, b, 2);
        assert(Self::spec_fields(v) =~= fields_of(b, 2));
    }

    /// Every message that decoding gives is well formed, and so encodes to
    /// bytes that decode to it again.
    pub proof fn lemma_decoded_wf(b: Seq<u8>, v: SpecShutdown)
        requires
            Self::spec_decode(b) == Ok::<SpecShutdown, SpecError>(v),
        ensures
            Self::spec_wf(v),
            Self::spec_fits(v),
    {
        Self::lemma_canonical(b, v);
        lemma_le_bytes_of_value(b.subrange(0, 4));
        lemma_pow256_values();
    }

    /// The wire layout of a well-formed message: a table of exactly 2
    /// fields, which hold, in this order, `channel_id`, `close_script`.
    pub proof fn lemma_layout(v: SpecShutdown)
        requires
            Self::spec_wf(v),
            Self::spec_fits(v),
        ensures
            table_layout("ShutdownReader"@, Self::spec_bytes(v), 2) == Ok::<(), SpecVerificationError>(()),
            field_at(Self::spec_bytes(v), 2, 0) == v.channel_id,
            field_at(Self::spec_bytes(v), 2, 1) == v.close_script,
    {
        let fs = Self::spec_fields(v);
        let b = Self::spec_bytes(v);
        lemma_table_bytes_accepted("ShutdownReader"@, fs);
        assert(field_at(b, 2, 0) == fs[0]);
        assert(field_at(b, 2, 1) == fs[1]);
    }

    /// What decoding accepts is laid out as the table of the message it
    /// gives: field by field, the bytes are that field of the message.
    pub proof fn lemma_decoded_layout(b: Seq<u8>, v: SpecShutdown)
        requires
            Self::spec_decode(b) == Ok::<SpecShutdown, SpecError>(v),
        ensures
            table_layout("ShutdownReader"@, b, 2) == Ok::<(), SpecVerificationError>(()),
            field_at(b, 2, 0) == v.channel_id,
            field_at(b, 2, 1) == v.close_script,
    {
        Self::lemma_canonical(b, v);
        Self::lemma_decoded_wf(b, v);
        Self::lemma_layout(v);
    }
}

/// A proposed closing fee and the sender's signature.
#[derive(Clone, Debug, PartialEq, Eq)]
pub struct ClosingSigned {
    pub channel_id: Hash256,
    pub fee: u64,
    pub signature: Signature,
}

/// The mathematical value of a [`ClosingSigned`].
pub struct SpecClosingSigned {
    pub channel_id: Seq<u8>,
    pub fee: u64,
    pub signature: Seq<u8>,
}

impl View for ClosingSigned {
    type V = SpecClosingSigned;

    open spec fn view(&self) -> SpecClosingSigned {
        SpecClosingSigned {
            channel_id: self.channel_id@,
            fee: self.fee,
            signature: self.signature@,
        }
    }
}

impl ClosingSigned {
    /// The molecule bytes of each field, in order.
    pub open spec fn spec_fields(v: SpecClosingSigned) -> Seq<Seq<u8>> {
        seq![
            v.channel_id,
            u64_bytes(v.fee),
            v.signature,
        ]
    }

    /// The molecule bytes of the message.
    pub open spec fn spec_bytes(v: SpecClosingSigned) -> Seq<u8> {
        table_bytes(Self::spec_fields(v))
    }

    /// Every key, signature, nonce and script of the message is one that
    /// its library accepts, and every length fits its four-byte header.
    pub open spec fn spec_wf(v: SpecClosingSigned) -> bool {
        &&& v.channel_id.len() == 32
        &&& v.signature.len() == 64 && secp_compact_signature_valid(v.signature)
    }

    /// The message fits the four-byte total size of molecule.
    pub open spec fn spec_fits(v: SpecClosingSigned) -> bool {
        true
    }

    pub open spec fn wf(&self) -> bool {
        Self::spec_wf(self@) && Self::spec_fits(self@)
    }

    /// What molecule's `ClosingSignedReader` says of the bytes.
    pub open spec fn spec_check(b: Seq<u8>) -> Result<(), SpecVerificationError> {
        match table_layout("ClosingSignedReader"@, b, 3) {
            Err(e) => Err(e),
            Ok(_) => and_then(
                hash_check(field_at(b, 3, 0)),
                and_then(
                u64_check(field_at(b, 3, 1)),
                signature_check(field_at(b, 3, 2)),
            ),
            ),
        }
    }

    /// The message in checked bytes, or the first key, signature or nonce
    /// that does not parse.
    pub open spec fn spec_convert(b: Seq<u8>) -> Result<SpecClosingSigned, SpecError> {
        match signature_value(field_at(b, 3, 2)) {
            Err(e) => Err(e),
            Ok(signature) => Ok(SpecClosingSigned { channel_id: field_at(b, 3, 0), fee: u64_value(field_at(b, 3, 1)), signature: signature }),
        }
    }

    /// What decoding the bytes gives: molecule checks the whole message
    /// first, then each key, signature and nonce is parsed in order.
    pub open spec fn spec_decode(b: Seq<u8>) -> Result<SpecClosingSigned, SpecError> {
        then_convert(Self::spec_check(b), Self::spec_convert(b))
    }

    /// The molecule bytes of the message.
    pub fn to_molecule_bytes(&self) -> (r: Vec<u8>)
        ensures
            r@ == Self::spec_bytes(self@),
    {
        let mut fs: Vec<Vec<u8>> = Vec::new();
        fs.push(hash_field(&self.channel_id));
        fs.push(u64_field(self.fee));
        fs.push(signature_field(&self.signature));
        assert(views(fs@) =~= Self::spec_fields(self@));
        write_table(&fs)
    }

    /// Checks the bytes as molecule's `ClosingSignedReader` does.
    pub fn check(b: &[u8]) -> (r: Result<(), VerificationError>)
        ensures
            check_view(r) == Self::spec_check(b@),
    {
        let os = match check_table_layout("ClosingSignedReader", b, 3) {
            Ok(os) => os,
            Err(e) => {
                return Err(e);
            },
        };
        assert(os@[0] <= os@[1]);
        assert(os@[1] <= os@[2]);
        assert(os@[2] <= os@[3]);
        let fld0 = &b[os[0]..os[1]];
        let fld1 = &b[os[1]..os[2]];
        let fld2 = &b[os[2]..os[3]];
        match check_hash(fld0) {
            Ok(()) => {},
            Err(e) => {
                return Err(e);
            },
        }
        match check_u64(fld1) {
            Ok(()) => {},
            Err(e) => {
                return Err(e);
            },
        }
        match check_signature(fld2) {
            Ok(()) => {},
            Err(e) => {
                return Err(e);
            },
        }
        Ok(())
    }

    fn convert(b: &[u8]) -> (r: Result<Self, Error>)
        requires
            Self::spec_check(b@) == Ok::<(), SpecVerificationError>(()),
        ensures
            result_view(r) == Self::spec_convert(b@),
    {
        let os = match check_table_layout("ClosingSignedReader", b, 3) {
            Ok(os) => os,
            Err(e) => {
                return Err(Error::Molecule(e));
            },
        };
        assert(os@[0] <= os@[1]);
        assert(os@[1] <= os@[2]);
        assert(os@[2] <= os@[3]);
        let fld0 = &b[os[0]..os[1]];
        let fld1 = &b[os[1]..os[2]];
        let fld2 = &b[os[2]..os[3]];
        let channel_id = read_hash(fld0);
        let fee = read_u64(fld1);
        let signature = match read_signature(fld2) {
            Ok(x) => x,
            Err(e) => {
                return Err(e);
            },
        };
        Ok(ClosingSigned { channel_id, fee, signature })
    }

    /// Decodes the message from its molecule bytes.
    pub fn from_molecule_slice(data: &[u8]) -> (r: Result<Self, Error>)
        ensures
            result_view(r) == Self::spec_decode(data@),
            r matches Ok(m) ==> m.wf(),
    {
        let r = match Self::check(data) {
            Ok(()) => Self::convert(data),
            Err(e) => Err(Error::Molecule(e)),
        };
        proof {
            match &r {
                Ok(m) => Self::lemma_decoded_wf(data@, m@),
                Err(_) => {},
            }
        }
        r
    }

    /// Decoding the bytes of a well-formed message gives the message back.
    pub proof fn lemma_roundtrip(v: SpecClosingSigned)
        requires
            Self::spec_wf(v),
            Self::spec_fits(v),
        ensures
            Self::spec_decode(Self::spec_bytes(v)) == Ok::<SpecClosingSigned, SpecError>(v),
    {
        let fs = Self::spec_fields(v);
        let b = Self::spec_bytes(v);
        lemma_u64_field(v.fee);
        Self::lemma_size(v);
        lemma_table_bytes_accepted("ClosingSignedReader"@, fs);
        assert(field_at(b, 3, 0) == fs[0]);
        assert(field_at(b, 3, 1) == fs[1]);
        assert(field_at(b, 3, 2) == fs[2]);
        assert(Self::spec_convert(b) == Ok::<SpecClosingSigned, SpecError>(v));
    }

    /// Decoding accepts only the bytes that encoding writes: bytes that
    /// decode to a message are that message's bytes.
    pub proof fn lemma_canonical(b: Seq<u8>, v: SpecClosingSigned)
        requires
            Self::spec_decode(b) == Ok::<SpecClosingSigned, SpecError>(v),
        ensures
            Self::spec_bytes(v) == b,
    {
        lemma_table_canonical("ClosingSignedReader"@, b, 3);
        lemma_u64_canonical(field_at(b, 3, 1));
        assert(Self::spec_fields(v) =~= fields_of(b, 3));
    }

    /// Every message that decoding gives is well formed, and so encodes to
    /// bytes that decode to it again.
    pub proof fn lemma_decoded_wf(b: Seq<u8>, v: SpecClosingSigned)
        requires
            Self::spec_decode(b) == Ok::<SpecClosingSigned, SpecError>(v),
        ensures
            Self::spec_wf(v),
            Self::spec_fits(v),
    {
        Self::lemma_canonical(b, v);
        lemma_le_bytes_of_value(b.subrange(0, 4));
        lemma_pow256_values();
    }

    /// The wire layout of a well-formed message: a table of exactly 3
    /// fields, which hold, in this order, `channel_id`, `fee`, `signature`.
    pub proof fn lemma_layout(v: SpecClosingSigned)
        requires
            Self::spec_wf(v),
            Self::spec_fits(v),
        ensures
            table_layout("ClosingSignedReader"@, Self::spec_bytes(v), 3) == Ok::<(), SpecVerificationError>(()),
            field_at(Self::spec_bytes(v), 3, 0) == v.channel_id,
            field_at(Self::spec_bytes(v), 3, 1) == le_bytes(v.fee as nat, 8),
            field_at(Self::spec_bytes(v), 3, 2) == v.signature,
    {
        let fs = Self::spec_fields(v);
        let b = Self::spec_bytes(v);
        Self::lemma_size(v);
        lemma_table_bytes_accepted("ClosingSignedReader"@, fs);
        assert(field_at(b, 3, 0) == fs[0]);
        assert(field_at(b, 3, 1) == fs[1]);
        assert(field_at(b, 3, 2) == fs[2]);
    }

    /// What decoding accepts is laid out as the table of the message it
    /// gives: field by field, the bytes are that field of the message.
    pub proof fn lemma_decoded_layout(b: Seq<u8>, v: SpecClosingSigned)
        requires
            Self::spec_decode(b) == Ok::<SpecClosingSigned, SpecError>(v),
        ensures
            table_layout("ClosingSignedReader"@, b, 3) == Ok::<(), SpecVerificationError>(()),
            field_at(b, 3, 0) == v.channel_id,
            field_at(b, 3, 1) == le_bytes(v.fee as nat, 8),
            field_at(b, 3, 2) == v.signature,
    {
        Self::lemma_canonical(b, v);
        Self::lemma_decoded_wf(b, v);
        Self::lemma_layout(v);
    }

    /// The bytes of a well-formed message are short.
    pub proof fn lemma_size(v: SpecClosingSigned)
        requires
            Self::spec_wf(v),
        ensures
            Self::spec_bytes(v).len() <= 208,
    {
        let fs = Self::spec_fields(v);
        lemma_le_bytes_len(v.fee as nat, 8);
        assert forall|i: int| 0 <= i < fs.len() implies (#[trigger] fs[i]).len() <= 64 by {}
        lemma_concat_len_le(fs, 64);
        lemma_numbers_bytes_len(table_header(fs));
    }
}

/// A new time-locked contract offered over the channel.
#[derive(Clone, Debug, PartialEq, Eq)]
pub struct AddTlc {
    pub channel_id: Hash256,
    pub tlc_id: u64,
    pub amount: u64,
    pub payment_hash: Hash256,
    pub expiry: u64,
}

/// The mathematical value of a [`AddTlc`].
pub struct SpecAddTlc {
    pub channel_id: Seq<u8>,
    pub tlc_id: u64,
    pub amount: u64,
    pub payment_hash: Seq<u8>,
    pub expiry: u64,
}

impl View for AddTlc {
    type V = SpecAddTlc;

    open spec fn view(&self) -> SpecAddTlc {
        SpecAddTlc {
            channel_id: self.channel_id@,
            tlc_id: self.tlc_id,
            amount: self.amount,
            payment_hash: self.payment_hash@,
            expiry: self.expiry,
        }
    }
}

impl AddTlc {
    /// The molecule bytes of each field, in order.
    pub open spec fn spec_fields(v: SpecAddTlc) -> Seq<Seq<u8>> {
        seq![
            v.channel_id,
            u64_bytes(v.tlc_id),
            u64_bytes(v.amount),
            v.payment_hash,
            u64_bytes(v.expiry),
        ]
    }

    /// The molecule bytes of the message.
    pub open spec fn spec_bytes(v: SpecAddTlc) -> Seq<u8> {
        table_bytes(Self::spec_fields(v))
    }

    /// Every key, signature, nonce and script of the message is one that
    /// its library accepts, and every length fits its four-byte header.
    pub open spec fn spec_wf(v: SpecAddTlc) -> bool {
        &&& v.channel_id.len() == 32
        &&& v.payment_hash.len() == 32
    }

    /// The message fits the four-byte total size of molecule.
    pub open spec fn spec_fits(v: SpecAddTlc) -> bool {
        true
    }

    pub open spec fn wf(&self) -> bool {
        Self::spec_wf(self@) && Self::spec_fits(self@)
    }

    /// What molecule's `AddTlcReader` says of the bytes.
    pub open spec fn spec_check(b: Seq<u8>) -> Result<(), SpecVerificationError> {
        match table_layout("AddTlcReader"@, b, 5) {
            Err(e) => Err(e),
            Ok(_) => and_then(
                hash_check(field_at(b, 5, 0)),
                and_then(
                u64_check(field_at(b, 5, 1)),
                and_then(
                u64_check(field_at(b, 5, 2)),
                and_then(
                hash_check(field_at(b, 5, 3)),
                u64_check(field_at(b, 5, 4)),
            ),
            ),
            ),
            ),
        }
    }

    /// The message in checked bytes, or the first key, signature or nonce
    /// that does not parse.
    pub open spec fn spec_convert(b: Seq<u8>) -> Result<SpecAddTlc, SpecError> {
        Ok(SpecAddTlc { channel_id: field_at(b, 5, 0), tlc_id: u64_value(field_at(b, 5, 1)), amount: u64_value(field_at(b, 5, 2)), payment_hash: field_at(b, 5, 3), expiry: u64_value(field_at(b, 5, 4)) })
    }

    /// What decoding the bytes gives: molecule checks the whole message
    /// first, then each key, signature and nonce is parsed in order.
    pub open spec fn spec_decode(b: Seq<u8>) -> Result<SpecAddTlc, SpecError> {
        then_convert(Self::spec_check(b), Self::spec_convert(b))
    }

    /// The molecule bytes of the message.
    pub fn to_molecule_bytes(&self) -> (r: Vec<u8>)
        ensures
            r@ == Self::spec_bytes(self@),
    {
        let mut fs: Vec<Vec<u8>> = Vec::new();
        fs.push(hash_field(&self.channel_id));
        fs.push(u64_field(self.tlc_id));
        fs.push(u64_field(self.amount));
        fs.push(hash_field(&self.payment_hash));
        fs.push(u64_field(self.expiry));
        assert(views(fs@) =~= Self::spec_fields(self@));
        write_table(&fs)
    }

    /// Checks the bytes as molecule's `AddTlcReader` does.
    pub fn check(b: &[u8]) -> (r: Result<(), VerificationError>)
        ensures
            check_view(r) == Self::spec_check(b@),
    {
        let os = match check_table_layout("AddTlcReader", b, 5) {
            Ok(os) => os,
            Err(e) => {
                return Err(e);
            },
        };
        assert(os@[0] <= os@[1]);
        assert(os@[1] <= os@[2]);
        assert(os@[2] <= os@[3]);
        assert(os@[3] <= os@[4]);
        assert(os@[4] <= os@[5]);
        let fld0 = &b[os[0]..os[1]];
        let fld1 = &b[os[1]..os[2]];
        let fld2 = &b[os[2]..os[3]];
        let fld3 = &b[os[3]..os[4]];
        let fld4 = &b[os[4]..os[5]];
        match check_hash(fld0) {
            Ok(()) => {},
            Err(e) => {
                return Err(e);
            },
        }
        match check_u64(fld1) {
            Ok(()) => {},
            Err(e) => {
                return Err(e);
            },
        }
        match check_u64(fld2) {
            Ok(()) => {},
            Err(e) => {
                return Err(e);
            },
        }
        match check_hash(fld3) {
            Ok(()) => {},
            Err(e) => {
                return Err(e);
            },
        }
        match check_u64(fld4) {
            Ok(()) => {},
            Err(e) => {
                return Err(e);
            },
        }
        Ok(())
    }

    fn convert(b: &[u8]) -> (r: Result<Self, Error>)
        requires
            Self::spec_check(b@) == Ok::<(), SpecVerificationError>(()),
        ensures
            result_view(r) == Self::spec_convert(b@),
    {
        let os = match check_table_layout("AddTlcReader", b, 5) {
            Ok(os) => os,
            Err(e) => {
                return Err(Error::Molecule(e));
            },
        };
        assert(os@[0] <= os@[1]);
        assert(os@[1] <= os@[2]);
        assert(os@[2] <= os@[3]);
        assert(os@[3] <= os@[4]);
        assert(os@[4] <= os@[5]);
        let fld0 = &b[os[0]..os[1]];
        let fld1 = &b[os[1]..os[2]];
        let fld2 = &b[os[2]..os[3]];
        let fld3 = &b[os[3]..os[4]];
        let fld4 = &b[os[4]..os[5]];
        let channel_id = read_hash(fld0);
        let tlc_id = read_u64(fld1);
        let amount = read_u64(fld2);
        let payment_hash = read_hash(fld3);
        let expiry = read_u64(fld4);
        Ok(AddTlc { channel_id, tlc_id, amount, payment_hash, expiry })
    }

    /// Decodes the message from its molecule bytes.
    pub fn from_molecule_slice(data: &[u8]) -> (r: Result<Self, Error>)
        ensures
            result_view(r) == Self::spec_decode(data@),
            r matches Ok(m) ==> m.wf(),
    {
        let r = match Self::check(data) {
            Ok(()) => Self::convert(data),
            Err(e) => Err(Error::Molecule(e)),
        };
        proof {
            match &r {
                Ok(m) => Self::lemma_decoded_wf(data@, m@),
                Err(_) => {},
            }
        }
        r
    }

    /// Decoding the bytes of a well-formed message gives the message back.
    pub proof fn lemma_roundtrip(v: SpecAddTlc)
        requires
            Self::spec_wf(v),
            Self::spec_fits(v),
        ensures
            Self::spec_decode(Self::spec_bytes(v)) == Ok::<SpecAddTlc, SpecError>(v),
    {
        let fs = Self::spec_fields(v);
        let b = Self::spec_bytes(v);
        lemma_u64_field(v.tlc_id);
        lemma_u64_field(v.amount);
        lemma_u64_field(v.expiry);
        Self::lemma_size(v);
        lemma_table_bytes_accepted("AddTlcReader"@, fs);
        assert(field_at(b, 5, 0) == fs[0]);
        assert(field_at(b, 5, 1) == fs[1]);
        assert(field_at(b, 5, 2) == fs[2]);
        assert(field_at(b, 5, 3) == fs[3]);
        assert(field_at(b, 5, 4) == fs[4]);
        assert(Self::spec_convert(b) == Ok::<SpecAddTlc, SpecError>(v));
    }

    /// Decoding accepts only the bytes that encoding writes: bytes that
    /// decode to a message are that message's bytes.
    pub proof fn lemma_canonical(b: Seq<u8>, v: SpecAddTlc)
        requires
            Self::spec_decode(b) == Ok::<SpecAddTlc, SpecError>(v),
        ensures
            Self::spec_bytes(v) == b,
    {
        lemma_table_canonical("AddTlcReader"@, b, 5);
        lemma_u64_canonical(field_at(b, 5, 1));
        lemma_u64_canonical(field_at(b, 5, 2));
        lemma_u64_canonical(field_at(b, 5, 4));
        assert(Self::spec_fields(v) =~= fields_of(b, 5));
    }

    /// Every message that decoding gives is well formed, and so encodes to
    /// bytes that decode to it again.
    pub proof fn lemma_decoded_wf(b: Seq<u8>, v: SpecAddTlc)
        requires
            Self::spec_decode(b) == Ok::<SpecAddTlc, SpecError>(v),
        ensures
            Self::spec_wf(v),
            Self::spec_fits(v),
    {
        Self::lemma_canonical(b, v);
        lemma_le_bytes_of_value(b.subrange(0, 4));
        lemma_pow256_values();
    }

    /// The wire layout of a well-formed message: a table of exactly 5
    /// fields, which hold, in this order, `channel_id`, `tlc_id`, `amount`, `payment_hash`, `expiry`.
    pub proof fn lemma_layout(v: SpecAddTlc)
        requires
            Self::spec_wf(v),
            Self::spec_fits(v),
        ensures
            table_layout("AddTlcReader"@, Self::spec_bytes(v), 5) == Ok::<(), SpecVerificationError>(()),
            field_at(Self::spec_bytes(v), 5, 0) == v.channel_id,
            field_at(Self::spec_bytes(v), 5, 1) == le_bytes(v.tlc_id as nat, 8),
            field_at(Self::spec_bytes(v), 5, 2) == le_bytes(v.amount as nat, 8),
            field_at(Self::spec_bytes(v), 5, 3) == v.payment_hash,
            field_at(Self::spec_bytes(v), 5, 4) == le_bytes(v.expiry as nat, 8),
    {
        let fs = Self::spec_fields(v);
        let b = Self::spec_bytes(v);
        Self::lemma_size(v);
        lemma_table_bytes_accepted("AddTlcReader"@, fs);
        assert(field_at(b, 5, 0) == fs[0]);
        assert(field_at(b, 5, 1) == fs[1]);
        assert(field_at(b, 5, 2) == fs[2]);
        assert(field_at(b, 5, 3) == fs[3]);
        assert(field_at(b, 5, 4) == fs[4]);
    }

    /// What decoding accepts is laid out as the table of the message it
    /// gives: field by field, the bytes are that field of the message.
    pub proof fn lemma_decoded_layout(b: Seq<u8>, v: SpecAddTlc)
        requires
            Self::spec_decode(b) == Ok::<SpecAddTlc, SpecError>(v),
        ensures
            table_layout("AddTlcReader"@, b, 5) == Ok::<(), SpecVerificationError>(()),
            field_at(b, 5, 0) == v.channel_id,
            field_at(b, 5, 1) == le_bytes(v.tlc_id as nat, 8),
            field_at(b, 5, 2) == le_bytes(v.amount as nat, 8),
            field_at(b, 5, 3) == v.payment_hash,
            field_at(b, 5, 4) == le_bytes(v.expiry as nat, 8),
    {
        Self::lemma_canonical(b, v);
        Self::lemma_decoded_wf(b, v);
        Self::lemma_layout(v);
    }

    /// The bytes of a well-formed message are short.
    pub proof fn lemma_size(v: SpecAddTlc)
        requires
            Self::spec_wf(v),
        ensures
            Self::spec_bytes(v).len() <= 184,
    {
        let fs = Self::spec_fields(v);
        lemma_le_bytes_len(v.tlc_id as nat, 8);
        lemma_le_bytes_len(v.amount as nat, 8);
        lemma_le_bytes_len(v.expiry as nat, 8);
        assert forall|i: int| 0 <= i < fs.len() implies (#[trigger] fs[i]).len() <= 32 by {}
        lemma_concat_len_le(fs, 32);
        lemma_numbers_bytes_len(table_header(fs));
    }
}

/// Signatures over the commitment and each time-locked contract.
#[derive(Clone, Debug, PartialEq, Eq)]
pub struct TlcsSigned {
    pub channel_id: Hash256,
    pub signature: Signature,
    pub tlc_signatures: Vec<Signature>,
}

/// The mathematical value of a [`TlcsSigned`].
pub struct SpecTlcsSigned {
    pub channel_id: Seq<u8>,
    pub signature: Seq<u8>,
    pub tlc_signatures: Seq<Seq<u8>>,
}

impl View for TlcsSigned {
    type V = SpecTlcsSigned;

    open spec fn view(&self) -> SpecTlcsSigned {
        SpecTlcsSigned {
            channel_id: self.channel_id@,
            signature: self.signature@,
            tlc_signatures: signature_views(self.tlc_signatures@),
        }
    }
}

impl TlcsSigned {
    /// The molecule bytes of each field, in order.
    pub open spec fn spec_fields(v: SpecTlcsSigned) -> Seq<Seq<u8>> {
        seq![
            v.channel_id,
            v.signature,
            signature_vec_bytes(v.tlc_signatures),
        ]
    }

    /// The molecule bytes of the message.
    pub open spec fn spec_bytes(v: SpecTlcsSigned) -> Seq<u8> {
        table_bytes(Self::spec_fields(v))
    }

    /// Every key, signature, nonce and script of the message is one that
    /// its library accepts, and every length fits its four-byte header.
    pub open spec fn spec_wf(v: SpecTlcsSigned) -> bool {
        &&& v.channel_id.len() == 32
        &&& v.signature.len() == 64 && secp_compact_signature_valid(v.signature)
        &&& v.tlc_signatures.len() < 0x1_0000_0000 && (forall|i: int| 0 <= i < v.tlc_signatures.len() ==> (#[trigger] v.tlc_signatures[i]).len() == 64 && secp_compact_signature_valid(v.tlc_signatures[i]))
    }

    /// The message fits the four-byte total size of molecule.
    pub open spec fn spec_fits(v: SpecTlcsSigned) -> bool {
        Self::spec_bytes(v).len() < 0x1_0000_0000
    }

    pub open spec fn wf(&self) -> bool {
        Self::spec_wf(self@) && Self::spec_fits(self@)
    }

    /// What molecule's `TlcsSignedReader` says of the bytes.
    pub open spec fn spec_check(b: Seq<u8>) -> Result<(), SpecVerificationError> {
        match table_layout("TlcsSignedReader"@, b, 3) {
            Err(e) => Err(e),
            Ok(_) => and_then(
                hash_check(field_at(b, 3, 0)),
                and_then(
                signature_check(field_at(b, 3, 1)),
                signature_vec_check(field_at(b, 3, 2)),
            ),
            ),
        }
    }

    /// The message in checked bytes, or the first key, signature or nonce
    /// that does not parse.
    pub open spec fn spec_convert(b: Seq<u8>) -> Result<SpecTlcsSigned, SpecError> {
        match signature_value(field_at(b, 3, 1)) {
            Err(e) => Err(e),
            Ok(signature) => match signature_vec_value(field_at(b, 3, 2)) {
                Err(e) => Err(e),
                Ok(tlc_signatures) => Ok(SpecTlcsSigned { channel_id: field_at(b, 3, 0), signature: signature, tlc_signatures: tlc_signatures }),
            },
        }
    }

    /// What decoding the bytes gives: molecule checks the whole message
    /// first, then each key, signature and nonce is parsed in order.
    pub open spec fn spec_decode(b: Seq<u8>) -> Result<SpecTlcsSigned, SpecError> {
        then_convert(Self::spec_check(b), Self::spec_convert(b))
    }

    /// The molecule bytes of the message.
    pub fn to_molecule_bytes(&self) -> (r: Vec<u8>)
        ensures
            r@ == Self::spec_bytes(self@),
    {
        let mut fs: Vec<Vec<u8>> = Vec::new();
        fs.push(hash_field(&self.channel_id));
        fs.push(signature_field(&self.signature));
        fs.push(signature_vec_field(&self.tlc_signatures));
        assert(views(fs@) =~= Self::spec_fields(self@));
        write_table(&fs)
    }

    /// Checks the bytes as molecule's `TlcsSignedReader` does.
    pub fn check(b: &[u8]) -> (r: Result<(), VerificationError>)
        ensures
            check_view(r) == Self::spec_check(b@),
    {
        let os = match check_table_layout("TlcsSignedReader", b, 3) {
            Ok(os) => os,
            Err(e) => {
                return Err(e);
            },
        };
        assert(os@[0] <= os@[1]);
        assert(os@[1] <= os@[2]);
        assert(os@[2] <= os@[3]);
        let fld0 = &b[os[0]..os[1]];
        let fld1 = &b[os[1]..os[2]];
        let fld2 = &b[os[2]..os[3]];
        match check_hash(fld0) {
            Ok(()) => {},
            Err(e) => {
                return Err(e);
            },
        }
        match check_signature(fld1) {
            Ok(()) => {},
            Err(e) => {
                return Err(e);
            },
        }
        match check_signature_vec(fld2) {
            Ok(()) => {},
            Err(e) => {
                return Err(e);
            },
        }
        Ok(())
    }

    fn convert(b: &[u8]) -> (r: Result<Self, Error>)
        requires
            Self::spec_check(b@) == Ok::<(), SpecVerificationError>(()),
        ensures
            result_view(r) == Self::spec_convert(b@),
    {
        let os = match check_table_layout("TlcsSignedReader", b, 3) {
            Ok(os) => os,
            Err(e) => {
                return Err(Error::Molecule(e));
            },
        };
        assert(os@[0] <= os@[1]);
        assert(os@[1] <= os@[2]);
        assert(os@[2] <= os@[3]);
        let fld0 = &b[os[0]..os[1]];
        let fld1 = &b[os[1]..os[2]];
        let fld2 = &b[os[2]..os[3]];
        let channel_id = read_hash(fld0);
        let signature = match read_signature(fld1) {
            Ok(x) => x,
            Err(e) => {
                return Err(e);
            },
        };
        let tlc_signatures = match read_signature_vec(fld2) {
            Ok(x) => x,
            Err(e) => {
                return Err(e);
            },
        };
        Ok(TlcsSigned { channel_id, signature, tlc_signatures })
    }

    /// Decodes the message from its molecule bytes.
    pub fn from_molecule_slice(data: &[u8]) -> (r: Result<Self, Error>)
        ensures
            result_view(r) == Self::spec_decode(data@),
            r matches Ok(m) ==> m.wf(),
    {
        let r = match Self::check(data) {
            Ok(()) => Self::convert(data),
            Err(e) => Err(Error::Molecule(e)),
        };
        proof {
            match &r {
                Ok(m) => Self::lemma_decoded_wf(data@, m@),
                Err(_) => {},
            }
        }
        r
    }

    /// Decoding the bytes of a well-formed message gives the message back.
    pub proof fn lemma_roundtrip(v: SpecTlcsSigned)
        requires
            Self::spec_wf(v),
            Self::spec_fits(v),
        ensures
            Self::spec_decode(Self::spec_bytes(v)) == Ok::<SpecTlcsSigned, SpecError>(v),
    {
        let fs = Self::spec_fields(v);
        let b = Self::spec_bytes(v);
        lemma_signature_vec_field(v.tlc_signatures);
        lemma_table_bytes_accepted("TlcsSignedReader"@, fs);
        assert(field_at(b, 3, 0) == fs[0]);
        assert(field_at(b, 3, 1) == fs[1]);
        assert(field_at(b, 3, 2) == fs[2]);
        assert(Self::spec_convert(b) == Ok::<SpecTlcsSigned, SpecError>(v));
    }

    /// Decoding accepts only the bytes that encoding writes: bytes that
    /// decode to a message are that message's bytes.
    pub proof fn lemma_canonical(b: Seq<u8>, v: SpecTlcsSigned)
        requires
            Self::spec_decode(b) == Ok::<SpecTlcsSigned, SpecError>(v),
        ensures
            Self::spec_bytes(v) == b,
    {
        lemma_table_canonical("TlcsSignedReader"@, b, 3);
        lemma_signature_vec_canonical(field_at(b, 3, 2));
        assert(Self::spec_fields(v) =~= fields_of(b, 3));
    }

    /// Every message that decoding gives is well formed, and so encodes to
    /// bytes that decode to it again.
    pub proof fn lemma_decoded_wf(b: Seq<u8>, v: SpecTlcsSigned)
        requires
            Self::spec_decode(b) == Ok::<SpecTlcsSigned, SpecError>(v),
        ensures
            Self::spec_wf(v),
            Self::spec_fits(v),
    {
        Self::lemma_canonical(b, v);
        lemma_le_bytes_of_value(b.subrange(0, 4));
        lemma_pow256_values();
        lemma_signature_vec_value_wf(field_at(b, 3, 2), v.tlc_signatures);
    }

    /// The wire layout of a well-formed message: a table of exactly 3
    /// fields, which hold, in this order, `channel_id`, `signature`, `tlc_signatures`.
    pub proof fn lemma_layout(v: SpecTlcsSigned)
        requires
            Self::spec_wf(v),
            Self::spec_fits(v),
        ensures
            table_layout("TlcsSignedReader"@, Self::spec_bytes(v), 3) == Ok::<(), SpecVerificationError>(()),
            field_at(Self::spec_bytes(v), 3, 0) == v.channel_id,
            field_at(Self::spec_bytes(v), 3, 1) == v.signature,
            field_at(Self::spec_bytes(v), 3, 2) == le_bytes(v.tlc_signatures.len(), 4) + concat(v.tlc_signatures),
    {
        let fs = Self::spec_fields(v);
        let b = Self::spec_bytes(v);
        lemma_table_bytes_accepted("TlcsSignedReader"@, fs);
        assert(field_at(b, 3, 0) == fs[0]);
        assert(field_at(b, 3, 1) == fs[1]);
        assert(field_at(b, 3, 2) == fs[2]);
    }

    /// What decoding accepts is laid out as the table of the message it
    /// gives: field by field, the bytes are that field of the message.
    pub proof fn lemma_decoded_layout(b: Seq<u8>, v: SpecTlcsSigned)
        requires
            Self::spec_decode(b) == Ok::<SpecTlcsSigned, SpecError>(v),
        ensures
            table_layout("TlcsSignedReader"@, b, 3) == Ok::<(), SpecVerificationError>(()),
            field_at(b, 3, 0) == v.channel_id,
            field_at(b, 3, 1) == v.signature,
            field_at(b, 3, 2) == le_bytes(v.tlc_signatures.len(), 4) + concat(v.tlc_signatures),
    {
        Self::lemma_canonical(b, v);
        Self::lemma_decoded_wf(b, v);
        Self::lemma_layout(v);
    }
}

/// The secret that revokes the previous commitment, and the next commitment point.
#[derive(Clone, Debug, PartialEq, Eq)]
pub struct RevokeAndAck {
    pub channel_id: Hash256,
    pub per_commitment_secret: Hash256,
    pub next_per_commitment_point: Pubkey,
}

/// The mathematical value of a [`RevokeAndAck`].
pub struct SpecRevokeAndAck {
    pub channel_id: Seq<u8>,
    pub per_commitment_secret: Seq<u8>,
    pub next_per_commitment_point: Seq<u8>,
}

impl View for RevokeAndAck {
    type V = SpecRevokeAndAck;

    open spec fn view(&self) -> SpecRevokeAndAck {
        SpecRevokeAndAck {
            channel_id: self.channel_id@,
            per_commitment_secret: self.per_commitment_secret@,
            next_per_commitment_point: self.next_per_commitment_point@,
        }
    }
}

impl RevokeAndAck {
    /// The molecule bytes of each field, in order.
    pub open spec fn spec_fields(v: SpecRevokeAndAck) -> Seq<Seq<u8>> {
        seq![
            v.channel_id,
            v.per_commitment_secret,
            v.next_per_commitment_point,
        ]
    }

    /// The molecule bytes of the message.
    pub open spec fn spec_bytes(v: SpecRevokeAndAck) -> Seq<u8> {
        table_bytes(Self::spec_fields(v))
    }

    /// Every key, signature, nonce and script of the message is one that
    /// its library accepts, and every length fits its four-byte header.
    pub open spec fn spec_wf(v: SpecRevokeAndAck) -> bool {
        &&& v.channel_id.len() == 32
        &&& v.per_commitment_secret.len() == 32
        &&& v.next_per_commitment_point.len() == 33 && secp_public_key_valid(v.next_per_commitment_point)
    }

    /// The message fits the four-byte total size of molecule.
    pub open spec fn spec_fits(v: SpecRevokeAndAck) -> bool {
        true
    }

    pub open spec fn wf(&self) -> bool {
        Self::spec_wf(self@) && Self::spec_fits(self@)
    }

    /// What molecule's `RevokeAndAckReader` says of the bytes.
    pub open spec fn spec_check(b: Seq<u8>) -> Result<(), SpecVerificationError> {
        match table_layout("RevokeAndAckReader"@, b, 3) {
            Err(e) => Err(e),
            Ok(_) => and_then(
                hash_check(field_at(b, 3, 0)),
                and_then(
                hash_check(field_at(b, 3, 1)),
                pubkey_check(field_at(b, 3, 2)),
            ),
            ),
        }
    }

    /// The message in checked bytes, or the first key, signature or nonce
    /// that does not parse.
    pub open spec fn spec_convert(b: Seq<u8>) -> Result<SpecRevokeAndAck, SpecError> {
        match pubkey_value(field_at(b, 3, 2)) {
            Err(e) => Err(e),
            Ok(next_per_commitment_point) => Ok(SpecRevokeAndAck { channel_id: field_at(b, 3, 0), per_commitment_secret: field_at(b, 3, 1), next_per_commitment_point: next_per_commitment_point }),
        }
    }

    /// What decoding the bytes gives: molecule checks the whole message
    /// first, then each key, signature and nonce is parsed in order.
    pub open spec fn spec_decode(b: Seq<u8>) -> Result<SpecRevokeAndAck, SpecError> {
        then_convert(Self::spec_check(b), Self::spec_convert(b))
    }

    /// The molecule bytes of the message.
    pub fn to_molecule_bytes(&self) -> (r: Vec<u8>)
        ensures
            r@ == Self::spec_bytes(self@),
    {
        let mut fs: Vec<Vec<u8>> = Vec::new();
        fs.push(hash_field(&self.channel_id));
        fs.push(hash_field(&self.per_commitment_secret));
        fs.push(pubkey_field(&self.next_per_commitment_point));
        assert(views(fs@) =~= Self::spec_fields(self@));
        write_table(&fs)
    }

    /// Checks the bytes as molecule's `RevokeAndAckReader` does.
    pub fn check(b: &[u8]) -> (r: Result<(), VerificationError>)
        ensures
            check_view(r) == Self::spec_check(b@),
    {
        let os = match check_table_layout("RevokeAndAckReader", b, 3) {
            Ok(os) => os,
            Err(e) => {
                return Err(e);
            },
        };
        assert(os@[0] <= os@[1]);
        assert(os@[1] <= os@[2]);
        assert(os@[2] <= os@[3]);
        let fld0 = &b[os[0]..os[1]];
        let fld1 = &b[os[1]..os[2]];
        let fld2 = &b[os[2]..os[3]];
        match check_hash(fld0) {
            Ok(()) => {},
            Err(e) => {
                return Err(e);
            },
        }
        match check_hash(fld1) {
            Ok(()) => {},
            Err(e) => {
                return Err(e);
            },
        }
        match check_pubkey(fld2) {
            Ok(()) => {},
            Err(e) => {
                return Err(e);
            },
        }
        Ok(())
    }

    fn convert(b: &[u8]) -> (r: Result<Self, Error>)
        requires
            Self::spec_check(b@) == Ok::<(), SpecVerificationError>(()),
        ensures
            result_view(r) == Self::spec_convert(b@),
    {
        let os = match check_table_layout("RevokeAndAckReader", b, 3) {
            Ok(os) => os,
            Err(e) => {
                return Err(Error::Molecule(e));
            },
        };
        assert(os@[0] <= os@[1]);
        assert(os@[1] <= os@[2]);
        assert(os@[2] <= os@[3]);
        let fld0 = &b[os[0]..os[1]];
        let fld1 = &b[os[1]..os[2]];
        let fld2 = &b[os[2]..os[3]];
        let channel_id = read_hash(fld0);
        let per_commitment_secret = read_hash(fld1);
        let next_per_commitment_point = match read_pubkey(fld2) {
            Ok(x) => x,
            Err(e) => {
                return Err(e);
            },
        };
        Ok(RevokeAndAck { channel_id, per_commitment_secret, next_per_commitment_point })
    }

    /// Decodes the message from its molecule bytes.
    pub fn from_molecule_slice(data: &[u8]) -> (r: Result<Self, Error>)
        ensures
            result_view(r) == Self::spec_decode(data@),
            r matches Ok(m) ==> m.wf(),
    {
        let r = match Self::check(data) {
            Ok(()) => Self::convert(data),
            Err(e) => Err(Error::Molecule(e)),
        };
        proof {
            match &r {
                Ok(m) => Self::lemma_decoded_wf(data@, m@),
                Err(_) => {},
            }
        }
        r
    }

    /// Decoding the bytes of a well-formed message gives the message back.
    pub proof fn lemma_roundtrip(v: SpecRevokeAndAck)
        requires
            Self::spec_wf(v),
            Self::spec_fits(v),
        ensures
            Self::spec_decode(Self::spec_bytes(v)) == Ok::<SpecRevokeAndAck, SpecError>(v),
    {
        let fs = Self::spec_fields(v);
        let b = Self::spec_bytes(v);
        Self::lemma_size(v);
        lemma_table_bytes_accepted("RevokeAndAckReader"@, fs);
        assert(field_at(b, 3, 0) == fs[0]);
        assert(field_at(b, 3, 1) == fs[1]);
        assert(field_at(b, 3, 2) == fs[2]);
        assert(Self::spec_convert(b) == Ok::<SpecRevokeAndAck, SpecError>(v));
    }

    /// Decoding accepts only the bytes that encoding writes: bytes that
    /// decode to a message are that message's bytes.
    pub proof fn lemma_canonical(b: Seq<u8>, v: SpecRevokeAndAck)
        requires
            Self::spec_decode(b) == Ok::<SpecRevokeAndAck, SpecError>(v),
        ensures
            Self::spec_bytes(v) == b,
    {
        lemma_table_canonical("RevokeAndAckReader"@, b, 3);
        assert(Self::spec_fields(v) =~= fields_of(b, 3));
    }

    /// Every message that decoding gives is well formed, and so encodes to
    /// bytes that decode to it again.
    pub proof fn lemma_decoded_wf(b: Seq<u8>, v: SpecRevokeAndAck)
        requires
            Self::spec_decode(b) == Ok::<SpecRevokeAndAck, SpecError>(v),
        ensures
            Self::spec_wf(v),
            Self::spec_fits(v),
    {
        Self::lemma_canonical(b, v);
        lemma_le_bytes_of_value(b.subrange(0, 4));
        lemma_pow256_values();
    }

    /// The wire layout of a well-formed message: a table of exactly 3
    /// fields, which hold, in this order, `channel_id`, `per_commitment_secret`, `next_per_commitment_point`.
    pub proof fn lemma_layout(v: SpecRevokeAndAck)
        requires
            Self::spec_wf(v),
            Self::spec_fits(v),
        ensures
            table_layout("RevokeAndAckReader"@, Self::spec_bytes(v), 3) == Ok::<(), SpecVerificationError>(()),
            field_at(Self::spec_bytes(v), 3, 0) == v.channel_id,
            field_at(Self::spec_bytes(v), 3, 1) == v.per_commitment_secret,
            field_at(Self::spec_bytes(v), 3, 2) == v.next_per_commitment_point,
    {
        let fs = Self::spec_fields(v);
        let b = Self::spec_bytes(v);
        Self::lemma_size(v);
        lemma_table_bytes_accepted("RevokeAndAckReader"@, fs);
        assert(field_at(b, 3, 0) == fs[0]);
        assert(field_at(b, 3, 1) == fs[1]);
        assert(field_at(b, 3, 2) == fs[2]);
    }

    /// What decoding accepts is laid out as the table of the message it
    /// gives: field by field, the bytes are that field of the message.
    pub proof fn lemma_decoded_layout(b: Seq<u8>, v: SpecRevokeAndAck)
        requires
            Self::spec_decode(b) == Ok::<SpecRevokeAndAck, SpecError>(v),
        ensures
            table_layout("RevokeAndAckReader"@, b, 3) == Ok::<(), SpecVerificationError>(()),
            field_at(b, 3, 0) == v.channel_id,
            field_at(b, 3, 1) == v.per_commitment_secret,
            field_at(b, 3, 2) == v.next_per_commitment_point,
    {
        Self::lemma_canonical(b, v);
        Self::lemma_decoded_wf(b, v);
        Self::lemma_layout(v);
    }

    /// The bytes of a well-formed message are short.
    pub proof fn lemma_size(v: SpecRevokeAndAck)
        requires
            Self::spec_wf(v),
        ensures
            Self::spec_bytes(v).len() <= 115,
    {
        let fs = Self::spec_fields(v);
        assert forall|i: int| 0 <= i < fs.len() implies (#[trigger] fs[i]).len() <= 33 by {}
        lemma_concat_len_le(fs, 33);
        lemma_numbers_bytes_len(table_header(fs));
    }
}

/// A time-locked contract is removed because it was paid.
#[derive(Clone, Debug, PartialEq, Eq)]
pub struct RemoveTlcFulfill {
    pub payment_preimage: Hash256,
}

/// The mathematical value of a [`RemoveTlcFulfill`].
pub struct SpecRemoveTlcFulfill {
    pub payment_preimage: Seq<u8>,
}

impl View for RemoveTlcFulfill {
    type V = SpecRemoveTlcFulfill;

    open spec fn view(&self) -> SpecRemoveTlcFulfill {
        SpecRemoveTlcFulfill {
            payment_preimage: self.payment_preimage@,
        }
    }
}

impl RemoveTlcFulfill {
    /// The molecule bytes of each field, in order.
    pub open spec fn spec_fields(v: SpecRemoveTlcFulfill) -> Seq<Seq<u8>> {
        seq![
            v.payment_preimage,
        ]
    }

    /// The molecule bytes of the message.
    pub open spec fn spec_bytes(v: SpecRemoveTlcFulfill) -> Seq<u8> {
        table_bytes(Self::spec_fields(v))
    }

    /// Every key, signature, nonce and script of the message is one that
    /// its library accepts, and every length fits its four-byte header.
    pub open spec fn spec_wf(v: SpecRemoveTlcFulfill) -> bool {
        &&& v.payment_preimage.len() == 32
    }

    /// The message fits the four-byte total size of molecule.
    pub open spec fn spec_fits(v: SpecRemoveTlcFulfill) -> bool {
        true
    }

    pub open spec fn wf(&self) -> bool {
        Self::spec_wf(self@) && Self::spec_fits(self@)
    }

    /// What molecule's `RemoveTlcFulfillReader` says of the bytes.
    pub open spec fn spec_check(b: Seq<u8>) -> Result<(), SpecVerificationError> {
        match table_layout("RemoveTlcFulfillReader"@, b, 1) {
            Err(e) => Err(e),
            Ok(_) => hash_check(field_at(b, 1, 0)),
        }
    }

    /// The message in checked bytes, or the first key, signature or nonce
    /// that does not parse.
    pub open spec fn spec_convert(b: Seq<u8>) -> Result<SpecRemoveTlcFulfill, SpecError> {
        Ok(SpecRemoveTlcFulfill { payment_preimage: field_at(b, 1, 0) })
    }

    /// What decoding the bytes gives: molecule checks the whole message
    /// first, then each key, signature and nonce is parsed in order.
    pub open spec fn spec_decode(b: Seq<u8>) -> Result<SpecRemoveTlcFulfill, SpecError> {
        then_convert(Self::spec_check(b), Self::spec_convert(b))
    }

    /// The molecule bytes of the message.
    pub fn to_molecule_bytes(&self) -> (r: Vec<u8>)
        ensures
            r@ == Self::spec_bytes(self@),
    {
        let mut fs: Vec<Vec<u8>> = Vec::new();
        fs.push(hash_field(&self.payment_preimage));
        assert(views(fs@) =~= Self::spec_fields(self@));
        write_table(&fs)
    }

    /// Checks the bytes as molecule's `RemoveTlcFulfillReader` does.
    pub fn check(b: &[u8]) -> (r: Result<(), VerificationError>)
        ensures
            check_view(r) == Self::spec_check(b@),
    {
        let os = match check_table_layout("RemoveTlcFulfillReader", b, 1) {
            Ok(os) => os,
            Err(e) => {
                return Err(e);
            },
        };
        assert(os@[0] <= os@[1]);
        let fld0 = &b[os[0]..os[1]];
        match check_hash(fld0) {
            Ok(()) => {},
            Err(e) => {
                return Err(e);
            },
        }
        Ok(())
    }

    fn convert(b: &[u8]) -> (r: Result<Self, Error>)
        requires
            Self::spec_check(b@) == Ok::<(), SpecVerificationError>(()),
        ensures
            result_view(r) == Self::spec_convert(b@),
    {
        let os = match check_table_layout("RemoveTlcFulfillReader", b, 1) {
            Ok(os) => os,
            Err(e) => {
                return Err(Error::Molecule(e));
            },
        };
        assert(os@[0] <= os@[1]);
        let fld0 = &b[os[0]..os[1]];
        let payment_preimage = read_hash(fld0);
        Ok(RemoveTlcFulfill { payment_preimage })
    }

    /// Decodes the message from its molecule bytes.
    pub fn from_molecule_slice(data: &[u8]) -> (r: Result<Self, Error>)
        ensures
            result_view(r) == Self::spec_decode(data@),
            r matches Ok(m) ==> m.wf(),
    {
        let r = match Self::check(data) {
            Ok(()) => Self::convert(data),
            Err(e) => Err(Error::Molecule(e)),
        };
        proof {
            match &r {
                Ok(m) => Self::lemma_decoded_wf(data@, m@),
                Err(_) => {},
            }
        }
        r
    }

    /// Decoding the bytes of a well-formed message gives the message back.
    pub proof fn lemma_roundtrip(v: SpecRemoveTlcFulfill)
        requires
            Self::spec_wf(v),
            Self::spec_fits(v),
        ensures
            Self::spec_decode(Self::spec_bytes(v)) == Ok::<SpecRemoveTlcFulfill, SpecError>(v),
    {
        let fs = Self::spec_fields(v);
        let b = Self::spec_bytes(v);
        Self::lemma_size(v);
        lemma_table_bytes_accepted("RemoveTlcFulfillReader"@, fs);
        assert(field_at(b, 1, 0) == fs[0]);
        assert(Self::spec_convert(b) == Ok::<SpecRemoveTlcFulfill, SpecError>(v));
    }

    /// Decoding accepts only the bytes that encoding writes: bytes that
    /// decode to a message are that message's bytes.
    pub proof fn lemma_canonical(b: Seq<u8>, v: SpecRemoveTlcFulfill)
        requires
            Self::spec_decode(b) == Ok::<SpecRemoveTlcFulfill, SpecError>(v),
        ensures
            Self::spec_bytes(v) == b,
    {
        lemma_table_canonical("RemoveTlcFulfillReader"@, b, 1);
        assert(Self::spec_fields(v) =~= fields_of(b, 1));
    }

    /// Every message that decoding gives is well formed, and so encodes to
    /// bytes that decode to it again.
    pub proof fn lemma_decoded_wf(b: Seq<u8>, v: SpecRemoveTlcFulfill)
        requires
            Self::spec_decode(b) == Ok::<SpecRemoveTlcFulfill, SpecError>(v),
        ensures
            Self::spec_wf(v),
            Self::spec_fits(v),
    {
        Self::lemma_canonical(b, v);
        lemma_le_bytes_of_value(b.subrange(0, 4));
        lemma_pow256_values();
    }

    /// The wire layout of a well-formed message: a table of exactly 1
    /// fields, which hold, in this order, `payment_preimage`.
    pub proof fn lemma_layout(v: SpecRemoveTlcFulfill)
        requires
            Self::spec_wf(v),
            Self::spec_fits(v),
        ensures
            table_layout("RemoveTlcFulfillReader"@, Self::spec_bytes(v), 1) == Ok::<(), SpecVerificationError>(()),
            field_at(Self::spec_bytes(v), 1, 0) == v.payment_preimage,
    {
        let fs = Self::spec_fields(v);
        let b = Self::spec_bytes(v);
        Self::lemma_size(v);
        lemma_table_bytes_accepted("RemoveTlcFulfillReader"@, fs);
        assert(field_at(b, 1, 0) == fs[0]);
    }

    /// What decoding accepts is laid out as the table of the message it
    /// gives: field by field, the bytes are that field of the message.
    pub proof fn lemma_decoded_layout(b: Seq<u8>, v: SpecRemoveTlcFulfill)
        requires
            Self::spec_decode(b) == Ok::<SpecRemoveTlcFulfill, SpecError>(v),
        ensures
            table_layout("RemoveTlcFulfillReader"@, b, 1) == Ok::<(), SpecVerificationError>(()),
            field_at(b, 1, 0) == v.payment_preimage,
    {
        Self::lemma_canonical(b, v);
        Self::lemma_decoded_wf(b, v);
        Self::lemma_layout(v);
    }

    /// The bytes of a well-formed message are short.
    pub proof fn lemma_size(v: SpecRemoveTlcFulfill)
        requires
            Self::spec_wf(v),
        ensures
            Self::spec_bytes(v).len() <= 40,
    {
        let fs = Self::spec_fields(v);
        assert forall|i: int| 0 <= i < fs.len() implies (#[trigger] fs[i]).len() <= 32 by {}
        lemma_concat_len_le(fs, 32);
        lemma_numbers_bytes_len(table_header(fs));
    }
}

/// A time-locked contract is removed because it failed.
#[derive(Clone, Debug, PartialEq, Eq)]
pub struct RemoveTlcFail {
    pub error_code: u32,
}

/// The mathematical value of a [`RemoveTlcFail`].
pub struct SpecRemoveTlcFail {
    pub error_code: u32,
}

impl View for RemoveTlcFail {
    type V = SpecRemoveTlcFail;

    open spec fn view(&self) -> SpecRemoveTlcFail {
        SpecRemoveTlcFail {
            error_code: self.error_code,
        }
    }
}

impl RemoveTlcFail {
    /// The molecule bytes of each field, in order.
    pub open spec fn spec_fields(v: SpecRemoveTlcFail) -> Seq<Seq<u8>> {
        seq![
            u32_bytes(v.error_code),
        ]
    }

    /// The molecule bytes of the message.
    pub open spec fn spec_bytes(v: SpecRemoveTlcFail) -> Seq<u8> {
        table_bytes(Self::spec_fields(v))
    }

    /// Every key, signature, nonce and script of the message is one that
    /// its library accepts, and every length fits its four-byte header.
    pub open spec fn spec_wf(v: SpecRemoveTlcFail) -> bool {
        true
    }

    /// The message fits the four-byte total size of molecule.
    pub open spec fn spec_fits(v: SpecRemoveTlcFail) -> bool {
        true
    }

    pub open spec fn wf(&self) -> bool {
        Self::spec_wf(self@) && Self::spec_fits(self@)
    }

    /// What molecule's `RemoveTlcFailReader` says of the bytes.
    pub open spec fn spec_check(b: Seq<u8>) -> Result<(), SpecVerificationError> {
        match table_layout("RemoveTlcFailReader"@, b, 1) {
            Err(e) => Err(e),
            Ok(_) => u32_check(field_at(b, 1, 0)),
        }
    }

    /// The message in checked bytes, or the first key, signature or nonce
    /// that does not parse.
    pub open spec fn spec_convert(b: Seq<u8>) -> Result<SpecRemoveTlcFail, SpecError> {
        Ok(SpecRemoveTlcFail { error_code: u32_value(field_at(b, 1, 0)) })
    }

    /// What decoding the bytes gives: molecule checks the whole message
    /// first, then each key, signature and nonce is parsed in order.
    pub open spec fn spec_decode(b: Seq<u8>) -> Result<SpecRemoveTlcFail, SpecError> {
        then_convert(Self::spec_check(b), Self::spec_convert(b))
    }

    /// The molecule bytes of the message.
    pub fn to_molecule_bytes(&self) -> (r: Vec<u8>)
        ensures
            r@ == Self::spec_bytes(self@),
    {
        let mut fs: Vec<Vec<u8>> = Vec::new();
        fs.push(u32_field(self.error_code));
        assert(views(fs@) =~= Self::spec_fields(self@));
        write_table(&fs)
    }

    /// Checks the bytes as molecule's `RemoveTlcFailReader` does.
    pub fn check(b: &[u8]) -> (r: Result<(), VerificationError>)
        ensures
            check_view(r) == Self::spec_check(b@),
    {
        let os = match check_table_layout("RemoveTlcFailReader", b, 1) {
            Ok(os) => os,
            Err(e) => {
                return Err(e);
            },
        };
        assert(os@[0] <= os@[1]);
        let fld0 = &b[os[0]..os[1]];
        match check_u32(fld0) {
            Ok(()) => {},
            Err(e) => {
                return Err(e);
            },
        }
        Ok(())
    }

    fn convert(b: &[u8]) -> (r: Result<Self, Error>)
        requires
            Self::spec_check(b@) == Ok::<(), SpecVerificationError>(()),
        ensures
            result_view(r) == Self::spec_convert(b@),
    {
        let os = match check_table_layout("RemoveTlcFailReader", b, 1) {
            Ok(os) => os,
            Err(e) => {
                return Err(Error::Molecule(e));
            },
        };
        assert(os@[0] <= os@[1]);
        let fld0 = &b[os[0]..os[1]];
        let error_code = read_u32(fld0);
        Ok(RemoveTlcFail { error_code })
    }

    /// Decodes the message from its molecule bytes.
    pub fn from_molecule_slice(data: &[u8]) -> (r: Result<Self, Error>)
        ensures
            result_view(r) == Self::spec_decode(data@),
            r matches Ok(m) ==> m.wf(),
    {
        let r = match Self::check(data) {
            Ok(()) => Self::convert(data),
            Err(e) => Err(Error::Molecule(e)),
        };
        proof {
            match &r {
                Ok(m) => Self::lemma_decoded_wf(data@, m@),
                Err(_) => {},
            }
        }
        r
    }

    /// Decoding the bytes of a well-formed message gives the message back.
    pub proof fn lemma_roundtrip(v: SpecRemoveTlcFail)
        requires
            Self::spec_wf(v),
            Self::spec_fits(v),
        ensures
            Self::spec_decode(Self::spec_bytes(v)) == Ok::<SpecRemoveTlcFail, SpecError>(v),
    {
        let fs = Self::spec_fields(v);
        let b = Self::spec_bytes(v);
        lemma_u32_field(v.error_code);
        Self::lemma_size(v);
        lemma_table_bytes_accepted("RemoveTlcFailReader"@, fs);
        assert(field_at(b, 1, 0) == fs[0]);
        assert(Self::spec_convert(b) == Ok::<SpecRemoveTlcFail, SpecError>(v));
    }

    /// Decoding accepts only the bytes that encoding writes: bytes that
    /// decode to a message are that message's bytes.
    pub proof fn lemma_canonical(b: Seq<u8>, v: SpecRemoveTlcFail)
        requires
            Self::spec_decode(b) == Ok::<SpecRemoveTlcFail, SpecError>(v),
        ensures
            Self::spec_bytes(v) == b,
    {
        lemma_table_canonical("RemoveTlcFailReader"@, b, 1);
        lemma_u32_canonical(field_at(b, 1, 0));
        assert(Self::spec_fields(v) =~= fields_of(b, 1));
    }

    /// Every message that decoding gives is well formed, and so encodes to
    /// bytes that decode to it again.
    pub proof fn lemma_decoded_wf(b: Seq<u8>, v: SpecRemoveTlcFail)
        requires
            Self::spec_decode(b) == Ok::<SpecRemoveTlcFail, SpecError>(v),
        ensures
            Self::spec_wf(v),
            Self::spec_fits(v),
    {
        Self::lemma_canonical(b, v);
        lemma_le_bytes_of_value(b.subrange(0, 4));
        lemma_pow256_values();
    }

    /// The wire layout of a well-formed message: a table of exactly 1
    /// fields, which hold, in this order, `error_code`.
    pub proof fn lemma_layout(v: SpecRemoveTlcFail)
        requires
            Self::spec_wf(v),
            Self::spec_fits(v),
        ensures
            table_layout("RemoveTlcFailReader"@, Self::spec_bytes(v), 1) == Ok::<(), SpecVerificationError>(()),
            field_at(Self::spec_bytes(v), 1, 0) == le_bytes(v.error_code as nat, 4),
    {
        let fs = Self::spec_fields(v);
        let b = Self::spec_bytes(v);
        Self::lemma_size(v);
        lemma_table_bytes_accepted("RemoveTlcFailReader"@, fs);
        assert(field_at(b, 1, 0) == fs[0]);
    }

    /// What decoding accepts is laid out as the table of the message it
    /// gives: field by field, the bytes are that field of the message.
    pub proof fn lemma_decoded_layout(b: Seq<u8>, v: SpecRemoveTlcFail)
        requires
            Self::spec_decode(b) == Ok::<SpecRemoveTlcFail, SpecError>(v),
        ensures
            table_layout("RemoveTlcFailReader"@, b, 1) == Ok::<(), SpecVerificationError>(()),
            field_at(b, 1, 0) == le_bytes(v.error_code as nat, 4),
    {
        Self::lemma_canonical(b, v);
        Self::lemma_decoded_wf(b, v);
        Self::lemma_layout(v);
    }

    /// The bytes of a well-formed message are short.
    pub proof fn lemma_size(v: SpecRemoveTlcFail)
        requires
            Self::spec_wf(v),
        ensures
            Self::spec_bytes(v).len() <= 12,
    {
        let fs = Self::spec_fields(v);
        lemma_le_bytes_len(v.error_code as nat, 4);
        assert forall|i: int| 0 <= i < fs.len() implies (#[trigger] fs[i]).len() <= 4 by {}
        lemma_concat_len_le(fs, 4);
        lemma_numbers_bytes_len(table_header(fs));
    }
}

/// The removal of a time-locked contract, with the reason.
#[derive(Clone, Debug, PartialEq, Eq)]
pub struct RemoveTlc {
    pub channel_id: Hash256,
    pub tlc_id: u64,
    pub reason: RemoveTlcReason,
}

/// The mathematical value of a [`RemoveTlc`].
pub struct SpecRemoveTlc {
    pub channel_id: Seq<u8>,
    pub tlc_id: u64,
    pub reason: SpecRemoveTlcReason,
}

impl View for RemoveTlc {
    type V = SpecRemoveTlc;

    open spec fn view(&self) -> SpecRemoveTlc {
        SpecRemoveTlc {
            channel_id: self.channel_id@,
            tlc_id: self.tlc_id,
            reason: self.reason@,
        }
    }
}

impl RemoveTlc {
    /// The molecule bytes of each field, in order.
    pub open spec fn spec_fields(v: SpecRemoveTlc) -> Seq<Seq<u8>> {
        seq![
            v.channel_id,
            u64_bytes(v.tlc_id),
            RemoveTlcReason::spec_bytes(v.reason),
        ]
    }

    /// The molecule bytes of the message.
    pub open spec fn spec_bytes(v: SpecRemoveTlc) -> Seq<u8> {
        table_bytes(Self::spec_fields(v))
    }

    /// Every key, signature, nonce and script of the message is one that
    /// its library accepts, and every length fits its four-byte header.
    pub open spec fn spec_wf(v: SpecRemoveTlc) -> bool {
        &&& v.channel_id.len() == 32
        &&& RemoveTlcReason::spec_wf(v.reason)
    }

    /// The message fits the four-byte total size of molecule.
    pub open spec fn spec_fits(v: SpecRemoveTlc) -> bool {
        true
    }

    pub open spec fn wf(&self) -> bool {
        Self::spec_wf(self@) && Self::spec_fits(self@)
    }

    /// What molecule's `RemoveTlcReader` says of the bytes.
    pub open spec fn spec_check(b: Seq<u8>) -> Result<(), SpecVerificationError> {
        match table_layout("RemoveTlcReader"@, b, 3) {
            Err(e) => Err(e),
            Ok(_) => and_then(
                hash_check(field_at(b, 3, 0)),
                and_then(
                u64_check(field_at(b, 3, 1)),
                RemoveTlcReason::spec_check(field_at(b, 3, 2)),
            ),
            ),
        }
    }

    /// The message in checked bytes, or the first key, signature or nonce
    /// that does not parse.
    pub open spec fn spec_convert(b: Seq<u8>) -> Result<SpecRemoveTlc, SpecError> {
        match RemoveTlcReason::spec_decode(field_at(b, 3, 2)) {
            Err(e) => Err(e),
            Ok(reason) => Ok(SpecRemoveTlc { channel_id: field_at(b, 3, 0), tlc_id: u64_value(field_at(b, 3, 1)), reason: reason }),
        }
    }

    /// What decoding the bytes gives: molecule checks the whole message
    /// first, then each key, signature and nonce is parsed in order.
    pub open spec fn spec_decode(b: Seq<u8>) -> Result<SpecRemoveTlc, SpecError> {
        then_convert(Self::spec_check(b), Self::spec_convert(b))
    }

    /// The molecule bytes of the message.
    pub fn to_molecule_bytes(&self) -> (r: Vec<u8>)
        ensures
            r@ == Self::spec_bytes(self@),
    {
        let mut fs: Vec<Vec<u8>> = Vec::new();
        fs.push(hash_field(&self.channel_id));
        fs.push(u64_field(self.tlc_id));
        fs.push(self.reason.to_molecule_bytes());
        assert(views(fs@) =~= Self::spec_fields(self@));
        write_table(&fs)
    }

    /// Checks the bytes as molecule's `RemoveTlcReader` does.
    pub fn check(b: &[u8]) -> (r: Result<(), VerificationError>)
        ensures
            check_view(r) == Self::spec_check(b@),
    {
        let os = match check_table_layout("RemoveTlcReader", b, 3) {
            Ok(os) => os,
            Err(e) => {
                return Err(e);
            },
        };
        assert(os@[0] <= os@[1]);
        assert(os@[1] <= os@[2]);
        assert(os@[2] <= os@[3]);
        let fld0 = &b[os[0]..os[1]];
        let fld1 = &b[os[1]..os[2]];
        let fld2 = &b[os[2]..os[3]];
        match check_hash(fld0) {
            Ok(()) => {},
            Err(e) => {
                return Err(e);
            },
        }
        match check_u64(fld1) {
            Ok(()) => {},
            Err(e) => {
                return Err(e);
            },
        }
        match RemoveTlcReason::check(fld2) {
            Ok(()) => {},
            Err(e) => {
                return Err(e);
            },
        }
        Ok(())
    }

    fn convert(b: &[u8]) -> (r: Result<Self, Error>)
        requires
            Self::spec_check(b@) == Ok::<(), SpecVerificationError>(()),
        ensures
            result_view(r) == Self::spec_convert(b@),
    {
        let os = match check_table_layout("RemoveTlcReader", b, 3) {
            Ok(os) => os,
            Err(e) => {
                return Err(Error::Molecule(e));
            },
        };
        assert(os@[0] <= os@[1]);
        assert(os@[1] <= os@[2]);
        assert(os@[2] <= os@[3]);
        let fld0 = &b[os[0]..os[1]];
        let fld1 = &b[os[1]..os[2]];
        let fld2 = &b[os[2]..os[3]];
        let channel_id = read_hash(fld0);
        let tlc_id = read_u64(fld1);
        let reason = match RemoveTlcReason::from_molecule_slice(fld2) {
            Ok(x) => x,
            Err(e) => {
                return Err(e);
            },
        };
        Ok(RemoveTlc { channel_id, tlc_id, reason })
    }

    /// Decodes the message from its molecule bytes.
    pub fn from_molecule_slice(data: &[u8]) -> (r: Result<Self, Error>)
        ensures
            result_view(r) == Self::spec_decode(data@),
            r matches Ok(m) ==> m.wf(),
    {
        let r = match Self::check(data) {
            Ok(()) => Self::convert(data),
            Err(e) => Err(Error::Molecule(e)),
        };
        proof {
            match &r {
                Ok(m) => Self::lemma_decoded_wf(data@, m@),
                Err(_) => {},
            }
        }
        r
    }

    /// Decoding the bytes of a well-formed message gives the message back.
    pub proof fn lemma_roundtrip(v: SpecRemoveTlc)
        requires
            Self::spec_wf(v),
            Self::spec_fits(v),
        ensures
            Self::spec_decode(Self::spec_bytes(v)) == Ok::<SpecRemoveTlc, SpecError>(v),
    {
        let fs = Self::spec_fields(v);
        let b = Self::spec_bytes(v);
        lemma_u64_field(v.tlc_id);
        RemoveTlcReason::lemma_roundtrip(v.reason);
        Self::lemma_size(v);
        lemma_table_bytes_accepted("RemoveTlcReader"@, fs);
        assert(field_at(b, 3, 0) == fs[0]);
        assert(field_at(b, 3, 1) == fs[1]);
        assert(field_at(b, 3, 2) == fs[2]);
        assert(Self::spec_convert(b) == Ok::<SpecRemoveTlc, SpecError>(v));
    }

    /// Decoding accepts only the bytes that encoding writes: bytes that
    /// decode to a message are that message's bytes.
    pub proof fn lemma_canonical(b: Seq<u8>, v: SpecRemoveTlc)
        requires
            Self::spec_decode(b) == Ok::<SpecRemoveTlc, SpecError>(v),
        ensures
            Self::spec_bytes(v) == b,
    {
        lemma_table_canonical("RemoveTlcReader"@, b, 3);
        lemma_u64_canonical(field_at(b, 3, 1));
        RemoveTlcReason::lemma_canonical(field_at(b, 3, 2), v.reason);
        assert(Self::spec_fields(v) =~= fields_of(b, 3));
    }

    /// Every message that decoding gives is well formed, and so encodes to
    /// bytes that decode to it again.
    pub proof fn lemma_decoded_wf(b: Seq<u8>, v: SpecRemoveTlc)
        requires
            Self::spec_decode(b) == Ok::<SpecRemoveTlc, SpecError>(v),
        ensures
            Self::spec_wf(v),
            Self::spec_fits(v),
    {
        Self::lemma_canonical(b, v);
        lemma_le_bytes_of_value(b.subrange(0, 4));
        lemma_pow256_values();
        RemoveTlcReason::lemma_decoded_wf(field_at(b, 3, 2), v.reason);
    }

    /// The wire layout of a well-formed message: a table of exactly 3
    /// fields, which hold, in this order, `channel_id`, `tlc_id`, `reason`.
    pub proof fn lemma_layout(v: SpecRemoveTlc)
        requires
            Self::spec_wf(v),
            Self::spec_fits(v),
        ensures
            table_layout("RemoveTlcReader"@, Self::spec_bytes(v), 3) == Ok::<(), SpecVerificationError>(()),
            field_at(Self::spec_bytes(v), 3, 0) == v.channel_id,
            field_at(Self::spec_bytes(v), 3, 1) == le_bytes(v.tlc_id as nat, 8),
            field_at(Self::spec_bytes(v), 3, 2) == RemoveTlcReason::spec_bytes(v.reason),
    {
        let fs = Self::spec_fields(v);
        let b = Self::spec_bytes(v);
        Self::lemma_size(v);
        lemma_table_bytes_accepted("RemoveTlcReader"@, fs);
        assert(field_at(b, 3, 0) == fs[0]);
        assert(field_at(b, 3, 1) == fs[1]);
        assert(field_at(b, 3, 2) == fs[2]);
    }

    /// What decoding accepts is laid out as the table of the message it
    /// gives: field by field, the bytes are that field of the message.
    pub proof fn lemma_decoded_layout(b: Seq<u8>, v: SpecRemoveTlc)
        requires
            Self::spec_decode(b) == Ok::<SpecRemoveTlc, SpecError>(v),
        ensures
            table_layout("RemoveTlcReader"@, b, 3) == Ok::<(), SpecVerificationError>(()),
            field_at(b, 3, 0) == v.channel_id,
            field_at(b, 3, 1) == le_bytes(v.tlc_id as nat, 8),
            field_at(b, 3, 2) == RemoveTlcReason::spec_bytes(v.reason),
    {
        Self::lemma_canonical(b, v);
        Self::lemma_decoded_wf(b, v);
        Self::lemma_layout(v);
    }

    /// The bytes of a well-formed message are short.
    pub proof fn lemma_size(v: SpecRemoveTlc)
        requires
            Self::spec_wf(v),
        ensures
            Self::spec_bytes(v).len() <= 250,
    {
        let fs = Self::spec_fields(v);
        lemma_le_bytes_len(v.tlc_id as nat, 8);
        RemoveTlcReason::lemma_size(v.reason);
        assert forall|i: int| 0 <= i < fs.len() implies (#[trigger] fs[i]).len() <= 78 by {}
        lemma_concat_len_le(fs, 78);
        lemma_numbers_bytes_len(table_header(fs));
    }
}

/// Why a time-locked contract is removed.
#[derive(Clone, Debug, PartialEq, Eq)]
pub enum RemoveTlcReason {
    RemoveTlcFulfill(RemoveTlcFulfill),
    RemoveTlcFail(RemoveTlcFail),
}

/// The mathematical value of a [`RemoveTlcReason`].
pub enum SpecRemoveTlcReason {
    RemoveTlcFulfill(SpecRemoveTlcFulfill),
    RemoveTlcFail(SpecRemoveTlcFail),
}

impl View for RemoveTlcReason {
    type V = SpecRemoveTlcReason;

    open spec fn view(&self) -> SpecRemoveTlcReason {
        match self {
            RemoveTlcReason::RemoveTlcFulfill(m) => SpecRemoveTlcReason::RemoveTlcFulfill(m@),
            RemoveTlcReason::RemoveTlcFail(m) => SpecRemoveTlcReason::RemoveTlcFail(m@),
        }
    }
}

impl RemoveTlcReason {
    /// The union's item id of the message.
    pub open spec fn spec_item_id(v: SpecRemoveTlcReason) -> nat {
        match v {
            SpecRemoveTlcReason::RemoveTlcFulfill(_) => 0,
            SpecRemoveTlcReason::RemoveTlcFail(_) => 1,
        }
    }

    /// The molecule bytes of the message: its item id, then the item.
    pub open spec fn spec_bytes(v: SpecRemoveTlcReason) -> Seq<u8> {
        le_bytes(Self::spec_item_id(v), 4) + match v {
            SpecRemoveTlcReason::RemoveTlcFulfill(m) => RemoveTlcFulfill::spec_bytes(m),
            SpecRemoveTlcReason::RemoveTlcFail(m) => RemoveTlcFail::spec_bytes(m),
        }
    }

    pub open spec fn spec_wf(v: SpecRemoveTlcReason) -> bool {
        match v {
            SpecRemoveTlcReason::RemoveTlcFulfill(m) => RemoveTlcFulfill::spec_wf(m) && RemoveTlcFulfill::spec_fits(m),
            SpecRemoveTlcReason::RemoveTlcFail(m) => RemoveTlcFail::spec_wf(m) && RemoveTlcFail::spec_fits(m),
        }
    }

    pub open spec fn wf(&self) -> bool {
        Self::spec_wf(self@)
    }

    /// What molecule's `RemoveTlcReasonReader` says of the bytes.
    pub open spec fn spec_check(b: Seq<u8>) -> Result<(), SpecVerificationError> {
        if b.len() < 4 {
            Err(SpecVerificationError::HeaderIsBroken("RemoveTlcReasonReader"@, 4, b.len() as int))
        } else if number_at(b, 0) == 0 {
            RemoveTlcFulfill::spec_check(b.subrange(4, b.len() as int))
        } else if number_at(b, 0) == 1 {
            RemoveTlcFail::spec_check(b.subrange(4, b.len() as int))
        } else {
            Err(SpecVerificationError::UnknownItem("RemoveTlcReasonReader"@, 2, number_at(b, 0) as int))
        }
    }

    /// The message in checked bytes, or the first key, signature or nonce
    /// that does not parse.
    pub open spec fn spec_convert(b: Seq<u8>) -> Result<SpecRemoveTlcReason, SpecError> {
        let inner = b.subrange(4, b.len() as int);
        if number_at(b, 0) == 0 {
            match RemoveTlcFulfill::spec_decode(inner) {
                Ok(x) => Ok(SpecRemoveTlcReason::RemoveTlcFulfill(x)),
                Err(e) => Err(e),
            }
        } else {
            match RemoveTlcFail::spec_decode(inner) {
                Ok(x) => Ok(SpecRemoveTlcReason::RemoveTlcFail(x)),
                Err(e) => Err(e),
            }
        }
    }

    /// What decoding the bytes gives: molecule checks the whole message
    /// first, then each key, signature and nonce is parsed in order.
    pub open spec fn spec_decode(b: Seq<u8>) -> Result<SpecRemoveTlcReason, SpecError> {
        then_convert(Self::spec_check(b), Self::spec_convert(b))
    }

    /// The molecule bytes of the message.
    pub fn to_molecule_bytes(&self) -> (r: Vec<u8>)
        ensures
            r@ == Self::spec_bytes(self@),
    {
        let mut out: Vec<u8> = Vec::new();
        let inner = match self {
            RemoveTlcReason::RemoveTlcFulfill(m) => {
                push_le(&mut out, 0, 4);
                m.to_molecule_bytes()
            },
            RemoveTlcReason::RemoveTlcFail(m) => {
                push_le(&mut out, 1, 4);
                m.to_molecule_bytes()
            },
        };
        append_bytes(&mut out, inner.as_slice());
        out
    }

    /// Checks the bytes as molecule's `RemoveTlcReasonReader` does.
    pub fn check(b: &[u8]) -> (r: Result<(), VerificationError>)
        ensures
            check_view(r) == Self::spec_check(b@),
    {
        if b.len() < 4 {
            return Err(VerificationError::HeaderIsBroken("RemoveTlcReasonReader".to_owned(), 4, b.len()));
        }
        let id = read_number(b, 0);
        let inner = &b[4..b.len()];
        if id == 0 {
            RemoveTlcFulfill::check(inner)
        } else if id == 1 {
            RemoveTlcFail::check(inner)
        } else {
            Err(VerificationError::UnknownItem("RemoveTlcReasonReader".to_owned(), 2, id as u32))
        }
    }

    /// Decodes the message from its molecule bytes.
    pub fn from_molecule_slice(data: &[u8]) -> (r: Result<Self, Error>)
        ensures
            result_view(r) == Self::spec_decode(data@),
            r matches Ok(m) ==> m.wf(),
    {
        if data.len() < 4 {
            return Err(Error::Molecule(VerificationError::HeaderIsBroken("RemoveTlcReasonReader".to_owned(), 4, data.len())));
        }
        let id = read_number(data, 0);
        let inner = &data[4..data.len()];
        if id == 0 {
            match RemoveTlcFulfill::from_molecule_slice(inner) {
                Ok(x) => Ok(RemoveTlcReason::RemoveTlcFulfill(x)),
                Err(e) => Err(e),
            }
        } else if id == 1 {
            match RemoveTlcFail::from_molecule_slice(inner) {
                Ok(x) => Ok(RemoveTlcReason::RemoveTlcFail(x)),
                Err(e) => Err(e),
            }
        } else {
            Err(Error::Molecule(VerificationError::UnknownItem("RemoveTlcReasonReader".to_owned(), 2, id as u32)))
        }
    }

    /// Decoding the bytes of a well-formed message gives the message back.
    pub proof fn lemma_roundtrip(v: SpecRemoveTlcReason)
        requires
            Self::spec_wf(v),
        ensures
            Self::spec_decode(Self::spec_bytes(v)) == Ok::<SpecRemoveTlcReason, SpecError>(v),
    {
        let b = Self::spec_bytes(v);
        match v {
            SpecRemoveTlcReason::RemoveTlcFulfill(m) => {
                RemoveTlcFulfill::lemma_roundtrip(m);
                lemma_pow256_values();
                lemma_number_of_prefix(0, RemoveTlcFulfill::spec_bytes(m));
            },
            SpecRemoveTlcReason::RemoveTlcFail(m) => {
                RemoveTlcFail::lemma_roundtrip(m);
                lemma_pow256_values();
                lemma_number_of_prefix(1, RemoveTlcFail::spec_bytes(m));
            },
        }
    }

    /// Decoding accepts only the bytes that encoding writes: bytes that
    /// decode to a message are that message's bytes.
    pub proof fn lemma_canonical(b: Seq<u8>, v: SpecRemoveTlcReason)
        requires
            Self::spec_decode(b) == Ok::<SpecRemoveTlcReason, SpecError>(v),
        ensures
            Self::spec_bytes(v) == b,
    {
        let inner = b.subrange(4, b.len() as int);
        lemma_le_bytes_of_value(b.subrange(0, 4));
        match v {
            SpecRemoveTlcReason::RemoveTlcFulfill(m) => {
                RemoveTlcFulfill::lemma_canonical(inner, m);
            },
            SpecRemoveTlcReason::RemoveTlcFail(m) => {
                RemoveTlcFail::lemma_canonical(inner, m);
            },
        }
        assert(b.subrange(0, 4) + inner =~= b);
    }

    /// Every message that decoding gives is well formed.
    pub proof fn lemma_decoded_wf(b: Seq<u8>, v: SpecRemoveTlcReason)
        requires
            Self::spec_decode(b) == Ok::<SpecRemoveTlcReason, SpecError>(v),
        ensures
            Self::spec_wf(v),
    {
        let inner = b.subrange(4, b.len() as int);
        match v {
            SpecRemoveTlcReason::RemoveTlcFulfill(m) => {
                RemoveTlcFulfill::lemma_decoded_wf(inner, m);
            },
            SpecRemoveTlcReason::RemoveTlcFail(m) => {
                RemoveTlcFail::lemma_decoded_wf(inner, m);
            },
        }
    }

    /// The wire layout of a well-formed message: the item id of its kind
    /// (RemoveTlcFulfill 0, RemoveTlcFail 1), then the item's own bytes.
    pub proof fn lemma_layout(v: SpecRemoveTlcReason)
        requires
            Self::spec_wf(v),
        ensures
            Self::spec_bytes(v).len() >= 4,
            v matches SpecRemoveTlcReason::RemoveTlcFulfill(m) ==> number_at(Self::spec_bytes(v), 0) == 0 && Self::spec_bytes(v).subrange(4, Self::spec_bytes(v).len() as int) == RemoveTlcFulfill::spec_bytes(m),
            v matches SpecRemoveTlcReason::RemoveTlcFail(m) ==> number_at(Self::spec_bytes(v), 0) == 1 && Self::spec_bytes(v).subrange(4, Self::spec_bytes(v).len() as int) == RemoveTlcFail::spec_bytes(m),
    {
        lemma_pow256_values();
        match v {
            SpecRemoveTlcReason::RemoveTlcFulfill(m) => {
                lemma_number_of_prefix(0, RemoveTlcFulfill::spec_bytes(m));
            },
            SpecRemoveTlcReason::RemoveTlcFail(m) => {
                lemma_number_of_prefix(1, RemoveTlcFail::spec_bytes(m));
            },
        }
    }

    /// What decoding accepts starts with the item id of the kind of message
    /// it gives, and the rest is that message's bytes.
    pub proof fn lemma_decoded_layout(b: Seq<u8>, v: SpecRemoveTlcReason)
        requires
            Self::spec_decode(b) == Ok::<SpecRemoveTlcReason, SpecError>(v),
        ensures
            b.len() >= 4,
            v matches SpecRemoveTlcReason::RemoveTlcFulfill(m) ==> number_at(b, 0) == 0 && b.subrange(4, b.len() as int) == RemoveTlcFulfill::spec_bytes(m),
            v matches SpecRemoveTlcReason::RemoveTlcFail(m) ==> number_at(b, 0) == 1 && b.subrange(4, b.len() as int) == RemoveTlcFail::spec_bytes(m),
    {
        Self::lemma_canonical(b, v);
        Self::lemma_decoded_wf(b, v);
        Self::lemma_layout(v);
    }

    /// The bytes of a well-formed reason are short.
    pub proof fn lemma_size(v: SpecRemoveTlcReason)
        requires
            Self::spec_wf(v),
        ensures
            Self::spec_bytes(v).len() <= 78,
    {
        lemma_le_bytes_len(Self::spec_item_id(v), 4);
        match v {
            SpecRemoveTlcReason::RemoveTlcFulfill(m) => {
                RemoveTlcFulfill::lemma_size(m);
            },
            SpecRemoveTlcReason::RemoveTlcFail(m) => {
                RemoveTlcFail::lemma_size(m);
            },
        }
    }
}

/// Any message of the protocol.
#[derive(Clone, Debug, PartialEq, Eq)]
pub enum PCNMessage {
    TestMessage(TestMessage),
    OpenChannel(OpenChannel),
    AcceptChannel(AcceptChannel),
    CommitmentSigned(CommitmentSigned),
    TxSignatures(TxSignatures),
    ChannelReady(ChannelReady),
    TxAdd(TxAdd),
    TxRemove(TxRemove),
    TxComplete(TxComplete),
    TxAbort(TxAbort),
    TxInitRBF(TxInitRBF),
    TxAckRBF(TxAckRBF),
    Shutdown(Shutdown),
    ClosingSigned(ClosingSigned),
    AddTlc(AddTlc),
    TlcsSigned(TlcsSigned),
    RevokeAndAck(RevokeAndAck),
    RemoveTlc(RemoveTlc),
}

/// The mathematical value of a [`PCNMessage`].
pub enum SpecPCNMessage {
    TestMessage(SpecTestMessage),
    OpenChannel(SpecOpenChannel),
    AcceptChannel(SpecAcceptChannel),
    CommitmentSigned(SpecCommitmentSigned),
    TxSignatures(SpecTxSignatures),
    ChannelReady(SpecChannelReady),
    TxAdd(SpecTxAdd),
    TxRemove(SpecTxRemove),
    TxComplete(SpecTxComplete),
    TxAbort(SpecTxAbort),
    TxInitRBF(SpecTxInitRBF),
    TxAckRBF(SpecTxAckRBF),
    Shutdown(SpecShutdown),
    ClosingSigned(SpecClosingSigned),
    AddTlc(SpecAddTlc),
    TlcsSigned(SpecTlcsSigned),
    RevokeAndAck(SpecRevokeAndAck),
    RemoveTlc(SpecRemoveTlc),
}

impl View for PCNMessage {
    type V = SpecPCNMessage;

    open spec fn view(&self) -> SpecPCNMessage {
        match self {
            PCNMessage::TestMessage(m) => SpecPCNMessage::TestMessage(m@),
            PCNMessage::OpenChannel(m) => SpecPCNMessage::OpenChannel(m@),
            PCNMessage::AcceptChannel(m) => SpecPCNMessage::AcceptChannel(m@),
            PCNMessage::CommitmentSigned(m) => SpecPCNMessage::CommitmentSigned(m@),
            PCNMessage::TxSignatures(m) => SpecPCNMessage::TxSignatures(m@),
            PCNMessage::ChannelReady(m) => SpecPCNMessage::ChannelReady(m@),
            PCNMessage::TxAdd(m) => SpecPCNMessage::TxAdd(m@),
            PCNMessage::TxRemove(m) => SpecPCNMessage::TxRemove(m@),
            PCNMessage::TxComplete(m) => SpecPCNMessage::TxComplete(m@),
            PCNMessage::TxAbort(m) => SpecPCNMessage::TxAbort(m@),
            PCNMessage::TxInitRBF(m) => SpecPCNMessage::TxInitRBF(m@),
            PCNMessage::TxAckRBF(m) => SpecPCNMessage::TxAckRBF(m@),
            PCNMessage::Shutdown(m) => SpecPCNMessage::Shutdown(m@),
            PCNMessage::ClosingSigned(m) => SpecPCNMessage::ClosingSigned(m@),
            PCNMessage::AddTlc(m) => SpecPCNMessage::AddTlc(m@),
            PCNMessage::TlcsSigned(m) => SpecPCNMessage::TlcsSigned(m@),
            PCNMessage::RevokeAndAck(m) => SpecPCNMessage::RevokeAndAck(m@),
            PCNMessage::RemoveTlc(m) => SpecPCNMessage::RemoveTlc(m@),
        }
    }
}

impl PCNMessage {
    /// The union's item id of the message.
    pub open spec fn spec_item_id(v: SpecPCNMessage) -> nat {
        match v {
            SpecPCNMessage::TestMessage(_) => 0,
            SpecPCNMessage::OpenChannel(_) => 1,
            SpecPCNMessage::AcceptChannel(_) => 2,
            SpecPCNMessage::CommitmentSigned(_) => 3,
            SpecPCNMessage::TxSignatures(_) => 4,
            SpecPCNMessage::ChannelReady(_) => 5,
            SpecPCNMessage::TxAdd(_) => 6,
            SpecPCNMessage::TxRemove(_) => 7,
            SpecPCNMessage::TxComplete(_) => 8,
            SpecPCNMessage::TxAbort(_) => 9,
            SpecPCNMessage::TxInitRBF(_) => 10,
            SpecPCNMessage::TxAckRBF(_) => 11,
            SpecPCNMessage::Shutdown(_) => 12,
            SpecPCNMessage::ClosingSigned(_) => 13,
            SpecPCNMessage::AddTlc(_) => 14,
            SpecPCNMessage::TlcsSigned(_) => 15,
            SpecPCNMessage::RevokeAndAck(_) => 16,
            SpecPCNMessage::RemoveTlc(_) => 17,
        }
    }

    /// The molecule bytes of the message: its item id, then the item.
    pub open spec fn spec_bytes(v: SpecPCNMessage) -> Seq<u8> {
        le_bytes(Self::spec_item_id(v), 4) + match v {
            SpecPCNMessage::TestMessage(m) => TestMessage::spec_bytes(m),
            SpecPCNMessage::OpenChannel(m) => OpenChannel::spec_bytes(m),
            SpecPCNMessage::AcceptChannel(m) => AcceptChannel::spec_bytes(m),
            SpecPCNMessage::CommitmentSigned(m) => CommitmentSigned::spec_bytes(m),
            SpecPCNMessage::TxSignatures(m) => TxSignatures::spec_bytes(m),
            SpecPCNMessage::ChannelReady(m) => ChannelReady::spec_bytes(m),
            SpecPCNMessage::TxAdd(m) => TxAdd::spec_bytes(m),
            SpecPCNMessage::TxRemove(m) => TxRemove::spec_bytes(m),
            SpecPCNMessage::TxComplete(m) => TxComplete::spec_bytes(m),
            SpecPCNMessage::TxAbort(m) => TxAbort::spec_bytes(m),
            SpecPCNMessage::TxInitRBF(m) => TxInitRBF::spec_bytes(m),
            SpecPCNMessage::TxAckRBF(m) => TxAckRBF::spec_bytes(m),
            SpecPCNMessage::Shutdown(m) => Shutdown::spec_bytes(m),
            SpecPCNMessage::ClosingSigned(m) => ClosingSigned::spec_bytes(m),
            SpecPCNMessage::AddTlc(m) => AddTlc::spec_bytes(m),
            SpecPCNMessage::TlcsSigned(m) => TlcsSigned::spec_bytes(m),
            SpecPCNMessage::RevokeAndAck(m) => RevokeAndAck::spec_bytes(m),
            SpecPCNMessage::RemoveTlc(m) => RemoveTlc::spec_bytes(m),
        }
    }

    pub open spec fn spec_wf(v: SpecPCNMessage) -> bool {
        match v {
            SpecPCNMessage::TestMessage(m) => TestMessage::spec_wf(m) && TestMessage::spec_fits(m),
            SpecPCNMessage::OpenChannel(m) => OpenChannel::spec_wf(m) && OpenChannel::spec_fits(m),
            SpecPCNMessage::AcceptChannel(m) => AcceptChannel::spec_wf(m) && AcceptChannel::spec_fits(m),
            SpecPCNMessage::CommitmentSigned(m) => CommitmentSigned::spec_wf(m) && CommitmentSigned::spec_fits(m),
            SpecPCNMessage::TxSignatures(m) => TxSignatures::spec_wf(m) && TxSignatures::spec_fits(m),
            SpecPCNMessage::ChannelReady(m) => ChannelReady::spec_wf(m) && ChannelReady::spec_fits(m),
            SpecPCNMessage::TxAdd(m) => TxAdd::spec_wf(m) && TxAdd::spec_fits(m),
            SpecPCNMessage::TxRemove(m) => TxRemove::spec_wf(m) && TxRemove::spec_fits(m),
            SpecPCNMessage::TxComplete(m) => TxComplete::spec_wf(m) && TxComplete::spec_fits(m),
            SpecPCNMessage::TxAbort(m) => TxAbort::spec_wf(m) && TxAbort::spec_fits(m),
            SpecPCNMessage::TxInitRBF(m) => TxInitRBF::spec_wf(m) && TxInitRBF::spec_fits(m),
            SpecPCNMessage::TxAckRBF(m) => TxAckRBF::spec_wf(m) && TxAckRBF::spec_fits(m),
            SpecPCNMessage::Shutdown(m) => Shutdown::spec_wf(m) && Shutdown::spec_fits(m),
            SpecPCNMessage::ClosingSigned(m) => ClosingSigned::spec_wf(m) && ClosingSigned::spec_fits(m),
            SpecPCNMessage::AddTlc(m) => AddTlc::spec_wf(m) && AddTlc::spec_fits(m),
            SpecPCNMessage::TlcsSigned(m) => TlcsSigned::spec_wf(m) && TlcsSigned::spec_fits(m),
            SpecPCNMessage::RevokeAndAck(m) => RevokeAndAck::spec_wf(m) && RevokeAndAck::spec_fits(m),
            SpecPCNMessage::RemoveTlc(m) => RemoveTlc::spec_wf(m) && RemoveTlc::spec_fits(m),
        }
    }

    pub open spec fn wf(&self) -> bool {
        Self::spec_wf(self@)
    }

    /// What molecule's `PCNMessageReader` says of the bytes.
    pub open spec fn spec_check(b: Seq<u8>) -> Result<(), SpecVerificationError> {
        if b.len() < 4 {
            Err(SpecVerificationError::HeaderIsBroken("PCNMessageReader"@, 4, b.len() as int))
        } else if number_at(b, 0) == 0 {
            TestMessage::spec_check(b.subrange(4, b.len() as int))
        } else if number_at(b, 0) == 1 {
            OpenChannel::spec_check(b.subrange(4, b.len() as int))
        } else if number_at(b, 0) == 2 {
            AcceptChannel::spec_check(b.subrange(4, b.len() as int))
        } else if number_at(b, 0) == 3 {
            CommitmentSigned::spec_check(b.subrange(4, b.len() as int))
        } else if number_at(b, 0) == 4 {
            TxSignatures::spec_check(b.subrange(4, b.len() as int))
        } else if number_at(b, 0) == 5 {
            ChannelReady::spec_check(b.subrange(4, b.len() as int))
        } else if number_at(b, 0) == 6 {
            TxAdd::spec_check(b.subrange(4, b.len() as int))
        } else if number_at(b, 0) == 7 {
            TxRemove::spec_check(b.subrange(4, b.len() as int))
        } else if number_at(b, 0) == 8 {
            TxComplete::spec_check(b.subrange(4, b.len() as int))
        } else if number_at(b, 0) == 9 {
            TxAbort::spec_check(b.subrange(4, b.len() as int))
        } else if number_at(b, 0) == 10 {
            TxInitRBF::spec_check(b.subrange(4, b.len() as int))
        } else if number_at(b, 0) == 11 {
            TxAckRBF::spec_check(b.subrange(4, b.len() as int))
        } else if number_at(b, 0) == 12 {
            Shutdown::spec_check(b.subrange(4, b.len() as int))
        } else if number_at(b, 0) == 13 {
            ClosingSigned::spec_check(b.subrange(4, b.len() as int))
        } else if number_at(b, 0) == 14 {
            AddTlc::spec_check(b.subrange(4, b.len() as int))
        } else if number_at(b, 0) == 15 {
            TlcsSigned::spec_check(b.subrange(4, b.len() as int))
        } else if number_at(b, 0) == 16 {
            RevokeAndAck::spec_check(b.subrange(4, b.len() as int))
        } else if number_at(b, 0) == 17 {
            RemoveTlc::spec_check(b.subrange(4, b.len() as int))
        } else {
            Err(SpecVerificationError::UnknownItem("PCNMessageReader"@, 18, number_at(b, 0) as int))
        }
    }

    /// The message in checked bytes, or the first key, signature or nonce
    /// that does not parse.
    pub open spec fn spec_convert(b: Seq<u8>) -> Result<SpecPCNMessage, SpecError> {
        let inner = b.subrange(4, b.len() as int);
        if number_at(b, 0) == 0 {
            match TestMessage::spec_decode(inner) {
                Ok(x) => Ok(SpecPCNMessage::TestMessage(x)),
                Err(e) => Err(e),
            }
        } else if number_at(b, 0) == 1 {
            match OpenChannel::spec_decode(inner) {
                Ok(x) => Ok(SpecPCNMessage::OpenChannel(x)),
                Err(e) => Err(e),
            }
        } else if number_at(b, 0) == 2 {
            match AcceptChannel::spec_decode(inner) {
                Ok(x) => Ok(SpecPCNMessage::AcceptChannel(x)),
                Err(e) => Err(e),
            }
        } else if number_at(b, 0) == 3 {
            match CommitmentSigned::spec_decode(inner) {
                Ok(x) => Ok(SpecPCNMessage::CommitmentSigned(x)),
                Err(e) => Err(e),
            }
        } else if number_at(b, 0) == 4 {
            match TxSignatures::spec_decode(inner) {
                Ok(x) => Ok(SpecPCNMessage::TxSignatures(x)),
                Err(e) => Err(e),
            }
        } else if number_at(b, 0) == 5 {
            match ChannelReady::spec_decode(inner) {
                Ok(x) => Ok(SpecPCNMessage::ChannelReady(x)),
                Err(e) => Err(e),
            }
        } else if number_at(b, 0) == 6 {
            match TxAdd::spec_decode(inner) {
                Ok(x) => Ok(SpecPCNMessage::TxAdd(x)),
                Err(e) => Err(e),
            }
        } else if number_at(b, 0) == 7 {
            match TxRemove::spec_decode(inner) {
                Ok(x) => Ok(SpecPCNMessage::TxRemove(x)),
                Err(e) => Err(e),
            }
        } else if number_at(b, 0) == 8 {
            match TxComplete::spec_decode(inner) {
                Ok(x) => Ok(SpecPCNMessage::TxComplete(x)),
                Err(e) => Err(e),
            }
        } else if number_at(b, 0) == 9 {
            match TxAbort::spec_decode(inner) {
                Ok(x) => Ok(SpecPCNMessage::TxAbort(x)),
                Err(e) => Err(e),
            }
        } else if number_at(b, 0) == 10 {
            match TxInitRBF::spec_decode(inner) {
                Ok(x) => Ok(SpecPCNMessage::TxInitRBF(x)),
                Err(e) => Err(e),
            }
        } else if number_at(b, 0) == 11 {
            match TxAckRBF::spec_decode(inner) {
                Ok(x) => Ok(SpecPCNMessage::TxAckRBF(x)),
                Err(e) => Err(e),
            }
        } else if number_at(b, 0) == 12 {
            match Shutdown::spec_decode(inner) {
                Ok(x) => Ok(SpecPCNMessage::Shutdown(x)),
                Err(e) => Err(e),
            }
        } else if number_at(b, 0) == 13 {
            match ClosingSigned::spec_decode(inner) {
                Ok(x) => Ok(SpecPCNMessage::ClosingSigned(x)),
                Err(e) => Err(e),
            }
        } else if number_at(b, 0) == 14 {
            match AddTlc::spec_decode(inner) {
                Ok(x) => Ok(SpecPCNMessage::AddTlc(x)),
                Err(e) => Err(e),
            }
        } else if number_at(b, 0) == 15 {
            match TlcsSigned::spec_decode(inner) {
                Ok(x) => Ok(SpecPCNMessage::TlcsSigned(x)),
                Err(e) => Err(e),
            }
        } else if number_at(b, 0) == 16 {
            match RevokeAndAck::spec_decode(inner) {
                Ok(x) => Ok(SpecPCNMessage::RevokeAndAck(x)),
                Err(e) => Err(e),
            }
        } else {
            match RemoveTlc::spec_decode(inner) {
                Ok(x) => Ok(SpecPCNMessage::RemoveTlc(x)),
                Err(e) => Err(e),
            }
        }
    }

    /// What decoding the bytes gives: molecule checks the whole message
    /// first, then each key, signature and nonce is parsed in order.
    pub open spec fn spec_decode(b: Seq<u8>) -> Result<SpecPCNMessage, SpecError> {
        then_convert(Self::spec_check(b), Self::spec_convert(b))
    }

    /// The molecule bytes of the message.
    pub fn to_molecule_bytes(&self) -> (r: Vec<u8>)
        ensures
            r@ == Self::spec_bytes(self@),
    {
        let mut out: Vec<u8> = Vec::new();
        let inner = match self {
            PCNMessage::TestMessage(m) => {
                push_le(&mut out, 0, 4);
                m.to_molecule_bytes()
            },
            PCNMessage::OpenChannel(m) => {
                push_le(&mut out, 1, 4);
                m.to_molecule_bytes()
            },
            PCNMessage::AcceptChannel(m) => {
                push_le(&mut out, 2, 4);
                m.to_molecule_bytes()
            },
            PCNMessage::CommitmentSigned(m) => {
                push_le(&mut out, 3, 4);
                m.to_molecule_bytes()
            },
            PCNMessage::TxSignatures(m) => {
                push_le(&mut out, 4, 4);
                m.to_molecule_bytes()
            },
            PCNMessage::ChannelReady(m) => {
                push_le(&mut out, 5, 4);
                m.to_molecule_bytes()
            },
            PCNMessage::TxAdd(m) => {
                push_le(&mut out, 6, 4);
                m.to_molecule_bytes()
            },
            PCNMessage::TxRemove(m) => {
                push_le(&mut out, 7, 4);
                m.to_molecule_bytes()
            },
            PCNMessage::TxComplete(m) => {
                push_le(&mut out, 8, 4);
                m.to_molecule_bytes()
            },
            PCNMessage::TxAbort(m) => {
                push_le(&mut out, 9, 4);
                m.to_molecule_bytes()
            },
            PCNMessage::TxInitRBF(m) => {
                push_le(&mut out, 10, 4);
                m.to_molecule_bytes()
            },
            PCNMessage::TxAckRBF(m) => {
                push_le(&mut out, 11, 4);
                m.to_molecule_bytes()
            },
            PCNMessage::Shutdown(m) => {
                push_le(&mut out, 12, 4);
                m.to_molecule_bytes()
            },
            PCNMessage::ClosingSigned(m) => {
                push_le(&mut out, 13, 4);
                m.to_molecule_bytes()
            },
            PCNMessage::AddTlc(m) => {
                push_le(&mut out, 14, 4);
                m.to_molecule_bytes()
            },
            PCNMessage::TlcsSigned(m) => {
                push_le(&mut out, 15, 4);
                m.to_molecule_bytes()
            },
            PCNMessage::RevokeAndAck(m) => {
                push_le(&mut out, 16, 4);
                m.to_molecule_bytes()
            },
            PCNMessage::RemoveTlc(m) => {
                push_le(&mut out, 17, 4);
                m.to_molecule_bytes()
            },
        };
        append_bytes(&mut out, inner.as_slice());
        out
    }

    /// Checks the bytes as molecule's `PCNMessageReader` does.
    pub fn check(b: &[u8]) -> (r: Result<(), VerificationError>)
        ensures
            check_view(r) == Self::spec_check(b@),
    {
        if b.len() < 4 {
            return Err(VerificationError::HeaderIsBroken("PCNMessageReader".to_owned(), 4, b.len()));
        }
        let id = read_number(b, 0);
        let inner = &b[4..b.len()];
        if id == 0 {
            TestMessage::check(inner)
        } else if id == 1 {
            OpenChannel::check(inner)
        } else if id == 2 {
            AcceptChannel::check(inner)
        } else if id == 3 {
            CommitmentSigned::check(inner)
        } else if id == 4 {
            TxSignatures::check(inner)
        } else if id == 5 {
            ChannelReady::check(inner)
        } else if id == 6 {
            TxAdd::check(inner)
        } else if id == 7 {
            TxRemove::check(inner)
        } else if id == 8 {
            TxComplete::check(inner)
        } else if id == 9 {
            TxAbort::check(inner)
        } else if id == 10 {
            TxInitRBF::check(inner)
        } else if id == 11 {
            TxAckRBF::check(inner)
        } else if id == 12 {
            Shutdown::check(inner)
        } else if id == 13 {
            ClosingSigned::check(inner)
        } else if id == 14 {
            AddTlc::check(inner)
        } else if id == 15 {
            TlcsSigned::check(inner)
        } else if id == 16 {
            RevokeAndAck::check(inner)
        } else if id == 17 {
            RemoveTlc::check(inner)
        } else {
            Err(VerificationError::UnknownItem("PCNMessageReader".to_owned(), 18, id as u32))
        }
    }

    /// Decodes the message from its molecule bytes.
    #[verifier::rlimit(40)]
    pub fn from_molecule_slice(data: &[u8]) -> (r: Result<Self, Error>)
        ensures
            result_view(r) == Self::spec_decode(data@),
            r matches Ok(m) ==> m.wf(),
    {
        if data.len() < 4 {
            return Err(Error::Molecule(VerificationError::HeaderIsBroken("PCNMessageReader".to_owned(), 4, data.len())));
        }
        let id = read_number(data, 0);
        let inner = &data[4..data.len()];
        if id == 0 {
            match TestMessage::from_molecule_slice(inner) {
                Ok(x) => Ok(PCNMessage::TestMessage(x)),
                Err(e) => Err(e),
            }
        } else if id == 1 {
            match OpenChannel::from_molecule_slice(inner) {
                Ok(x) => Ok(PCNMessage::OpenChannel(x)),
                Err(e) => Err(e),
            }
        } else if id == 2 {
            match AcceptChannel::from_molecule_slice(inner) {
                Ok(x) => Ok(PCNMessage::AcceptChannel(x)),
                Err(e) => Err(e),
            }
        } else if id == 3 {
            match CommitmentSigned::from_molecule_slice(inner) {
                Ok(x) => Ok(PCNMessage::CommitmentSigned(x)),
                Err(e) => Err(e),
            }
        } else if id == 4 {
            match TxSignatures::from_molecule_slice(inner) {
                Ok(x) => Ok(PCNMessage::TxSignatures(x)),
                Err(e) => Err(e),
            }
        } else if id == 5 {
            match ChannelReady::from_molecule_slice(inner) {
                Ok(x) => Ok(PCNMessage::ChannelReady(x)),
                Err(e) => Err(e),
            }
        } else if id == 6 {
            match TxAdd::from_molecule_slice(inner) {
                Ok(x) => Ok(PCNMessage::TxAdd(x)),
                Err(e) => Err(e),
            }
        } else if id == 7 {
            match TxRemove::from_molecule_slice(inner) {
                Ok(x) => Ok(PCNMessage::TxRemove(x)),
                Err(e) => Err(e),
            }
        } else if id == 8 {
            match TxComplete::from_molecule_slice(inner) {
                Ok(x) => Ok(PCNMessage::TxComplete(x)),
                Err(e) => Err(e),
            }
        } else if id == 9 {
            match TxAbort::from_molecule_slice(inner) {
                Ok(x) => Ok(PCNMessage::TxAbort(x)),
                Err(e) => Err(e),
            }
        } else if id == 10 {
            match TxInitRBF::from_molecule_slice(inner) {
                Ok(x) => Ok(PCNMessage::TxInitRBF(x)),
                Err(e) => Err(e),
            }
        } else if id == 11 {
            match TxAckRBF::from_molecule_slice(inner) {
                Ok(x) => Ok(PCNMessage::TxAckRBF(x)),
                Err(e) => Err(e),
            }
        } else if id == 12 {
            match Shutdown::from_molecule_slice(inner) {
                Ok(x) => Ok(PCNMessage::Shutdown(x)),
                Err(e) => Err(e),
            }
        } else if id == 13 {
            match ClosingSigned::from_molecule_slice(inner) {
                Ok(x) => Ok(PCNMessage::ClosingSigned(x)),
                Err(e) => Err(e),
            }
        } else if id == 14 {
            match AddTlc::from_molecule_slice(inner) {
                Ok(x) => Ok(PCNMessage::AddTlc(x)),
                Err(e) => Err(e),
            }
        } else if id == 15 {
            match TlcsSigned::from_molecule_slice(inner) {
                Ok(x) => Ok(PCNMessage::TlcsSigned(x)),
                Err(e) => Err(e),
            }
        } else if id == 16 {
            match RevokeAndAck::from_molecule_slice(inner) {
                Ok(x) => Ok(PCNMessage::RevokeAndAck(x)),
                Err(e) => Err(e),
            }
        } else if id == 17 {
            match RemoveTlc::from_molecule_slice(inner) {
                Ok(x) => Ok(PCNMessage::RemoveTlc(x)),
                Err(e) => Err(e),
            }
        } else {
            Err(Error::Molecule(VerificationError::UnknownItem("PCNMessageReader".to_owned(), 18, id as u32)))
        }
    }

    /// Decoding the bytes of a well-formed message gives the message back.
    pub proof fn lemma_roundtrip(v: SpecPCNMessage)
        requires
            Self::spec_wf(v),
        ensures
            Self::spec_decode(Self::spec_bytes(v)) == Ok::<SpecPCNMessage, SpecError>(v),
    {
        let b = Self::spec_bytes(v);
        match v {
            SpecPCNMessage::TestMessage(m) => {
                TestMessage::lemma_roundtrip(m);
                lemma_pow256_values();
                lemma_number_of_prefix(0, TestMessage::spec_bytes(m));
            },
            SpecPCNMessage::OpenChannel(m) => {
                OpenChannel::lemma_roundtrip(m);
                lemma_pow256_values();
                lemma_number_of_prefix(1, OpenChannel::spec_bytes(m));
            },
            SpecPCNMessage::AcceptChannel(m) => {
                AcceptChannel::lemma_roundtrip(m);
                lemma_pow256_values();
                lemma_number_of_prefix(2, AcceptChannel::spec_bytes(m));
            },
            SpecPCNMessage::CommitmentSigned(m) => {
                CommitmentSigned::lemma_roundtrip(m);
                lemma_pow256_values();
                lemma_number_of_prefix(3, CommitmentSigned::spec_bytes(m));
            },
            SpecPCNMessage::TxSignatures(m) => {
                TxSignatures::lemma_roundtrip(m);
                lemma_pow256_values();
                lemma_number_of_prefix(4, TxSignatures::spec_bytes(m));
            },
            SpecPCNMessage::ChannelReady(m) => {
                ChannelReady::lemma_roundtrip(m);
                lemma_pow256_values();
                lemma_number_of_prefix(5, ChannelReady::spec_bytes(m));
            },
            SpecPCNMessage::TxAdd(m) => {
                TxAdd::lemma_roundtrip(m);
                lemma_pow256_values();
                lemma_number_of_prefix(6, TxAdd::spec_bytes(m));
            },
            SpecPCNMessage::TxRemove(m) => {
                TxRemove::lemma_roundtrip(m);
                lemma_pow256_values();
                lemma_number_of_prefix(7, TxRemove::spec_bytes(m));
            },
            SpecPCNMessage::TxComplete(m) => {
                TxComplete::lemma_roundtrip(m);
                lemma_pow256_values();
                lemma_number_of_prefix(8, TxComplete::spec_bytes(m));
            },
            SpecPCNMessage::TxAbort(m) => {
                TxAbort::lemma_roundtrip(m);
                lemma_pow256_values();
                lemma_number_of_prefix(9, TxAbort::spec_bytes(m));
            },
            SpecPCNMessage::TxInitRBF(m) => {
                TxInitRBF::lemma_roundtrip(m);
                lemma_pow256_values();
                lemma_number_of_prefix(10, TxInitRBF::spec_bytes(m));
            },
            SpecPCNMessage::TxAckRBF(m) => {
                TxAckRBF::lemma_roundtrip(m);
                lemma_pow256_values();
                lemma_number_of_prefix(11, TxAckRBF::spec_bytes(m));
            },
            SpecPCNMessage::Shutdown(m) => {
                Shutdown::lemma_roundtrip(m);
                lemma_pow256_values();
                lemma_number_of_prefix(12, Shutdown::spec_bytes(m));
            },
            SpecPCNMessage::ClosingSigned(m) => {
                ClosingSigned::lemma_roundtrip(m);
                lemma_pow256_values();
                lemma_number_of_prefix(13, ClosingSigned::spec_bytes(m));
            },
            SpecPCNMessage::AddTlc(m) => {
                AddTlc::lemma_roundtrip(m);
                lemma_pow256_values();
                lemma_number_of_prefix(14, AddTlc::spec_bytes(m));
            },
            SpecPCNMessage::TlcsSigned(m) => {
                TlcsSigned::lemma_roundtrip(m);
                lemma_pow256_values();
                lemma_number_of_prefix(15, TlcsSigned::spec_bytes(m));
            },
            SpecPCNMessage::RevokeAndAck(m) => {
                RevokeAndAck::lemma_roundtrip(m);
                lemma_pow256_values();
                lemma_number_of_prefix(16, RevokeAndAck::spec_bytes(m));
            },
            SpecPCNMessage::RemoveTlc(m) => {
                RemoveTlc::lemma_roundtrip(m);
                lemma_pow256_values();
                lemma_number_of_prefix(17, RemoveTlc::spec_bytes(m));
            },
        }
    }

    /// Decoding accepts only the bytes that encoding writes: bytes that
    /// decode to a message are that message's bytes.
    pub proof fn lemma_canonical(b: Seq<u8>, v: SpecPCNMessage)
        requires
            Self::spec_decode(b) == Ok::<SpecPCNMessage, SpecError>(v),
        ensures
            Self::spec_bytes(v) == b,
    {
        let inner = b.subrange(4, b.len() as int);
        lemma_le_bytes_of_value(b.subrange(0, 4));
        match v {
            SpecPCNMessage::TestMessage(m) => {
                TestMessage::lemma_canonical(inner, m);
            },
            SpecPCNMessage::OpenChannel(m) => {
                OpenChannel::lemma_canonical(inner, m);
            },
            SpecPCNMessage::AcceptChannel(m) => {
                AcceptChannel::lemma_canonical(inner, m);
            },
            SpecPCNMessage::CommitmentSigned(m) => {
                CommitmentSigned::lemma_canonical(inner, m);
            },
            SpecPCNMessage::TxSignatures(m) => {
                TxSignatures::lemma_canonical(inner, m);
            },
            SpecPCNMessage::ChannelReady(m) => {
                ChannelReady::lemma_canonical(inner, m);
            },
            SpecPCNMessage::TxAdd(m) => {
                TxAdd::lemma_canonical(inner, m);
            },
            SpecPCNMessage::TxRemove(m) => {
                TxRemove::lemma_canonical(inner, m);
            },
            SpecPCNMessage::TxComplete(m) => {
                TxComplete::lemma_canonical(inner, m);
            },
            SpecPCNMessage::TxAbort(m) => {
                TxAbort::lemma_canonical(inner, m);
            },
            SpecPCNMessage::TxInitRBF(m) => {
                TxInitRBF::lemma_canonical(inner, m);
            },
            SpecPCNMessage::TxAckRBF(m) => {
                TxAckRBF::lemma_canonical(inner, m);
            },
            SpecPCNMessage::Shutdown(m) => {
                Shutdown::lemma_canonical(inner, m);
            },
            SpecPCNMessage::ClosingSigned(m) => {
                ClosingSigned::lemma_canonical(inner, m);
            },
            SpecPCNMessage::AddTlc(m) => {
                AddTlc::lemma_canonical(inner, m);
            },
            SpecPCNMessage::TlcsSigned(m) => {
                TlcsSigned::lemma_canonical(inner, m);
            },
            SpecPCNMessage::RevokeAndAck(m) => {
                RevokeAndAck::lemma_canonical(inner, m);
            },
            SpecPCNMessage::RemoveTlc(m) => {
                RemoveTlc::lemma_canonical(inner, m);
            },
        }
        assert(b.subrange(0, 4) + inner =~= b);
    }

    /// Every message that decoding gives is well formed.
    pub proof fn lemma_decoded_wf(b: Seq<u8>, v: SpecPCNMessage)
        requires
            Self::spec_decode(b) == Ok::<SpecPCNMessage, SpecError>(v),
        ensures
            Self::spec_wf(v),
    {
        let inner = b.subrange(4, b.len() as int);
        match v {
            SpecPCNMessage::TestMessage(m) => {
                TestMessage::lemma_decoded_wf(inner, m);
            },
            SpecPCNMessage::OpenChannel(m) => {
                OpenChannel::lemma_decoded_wf(inner, m);
            },
            SpecPCNMessage::AcceptChannel(m) => {
                AcceptChannel::lemma_decoded_wf(inner, m);
            },
            SpecPCNMessage::CommitmentSigned(m) => {
                CommitmentSigned::lemma_decoded_wf(inner, m);
            },
            SpecPCNMessage::TxSignatures(m) => {
                TxSignatures::lemma_decoded_wf(inner, m);
            },
            SpecPCNMessage::ChannelReady(m) => {
                ChannelReady::lemma_decoded_wf(inner, m);
            },
            SpecPCNMessage::TxAdd(m) => {
                TxAdd::lemma_decoded_wf(inner, m);
            },
            SpecPCNMessage::TxRemove(m) => {
                TxRemove::lemma_decoded_wf(inner, m);
            },
            SpecPCNMessage::TxComplete(m) => {
                TxComplete::lemma_decoded_wf(inner, m);
            },
            SpecPCNMessage::TxAbort(m) => {
                TxAbort::lemma_decoded_wf(inner, m);
            },
            SpecPCNMessage::TxInitRBF(m) => {
                TxInitRBF::lemma_decoded_wf(inner, m);
            },
            SpecPCNMessage::TxAckRBF(m) => {
                TxAckRBF::lemma_decoded_wf(inner, m);
            },
            SpecPCNMessage::Shutdown(m) => {
                Shutdown::lemma_decoded_wf(inner, m);
            },
            SpecPCNMessage::ClosingSigned(m) => {
                ClosingSigned::lemma_decoded_wf(inner, m);
            },
            SpecPCNMessage::AddTlc(m) => {
                AddTlc::lemma_decoded_wf(inner, m);
            },
            SpecPCNMessage::TlcsSigned(m) => {
                TlcsSigned::lemma_decoded_wf(inner, m);
            },
            SpecPCNMessage::RevokeAndAck(m) => {
                RevokeAndAck::lemma_decoded_wf(inner, m);
            },
            SpecPCNMessage::RemoveTlc(m) => {
                RemoveTlc::lemma_decoded_wf(inner, m);
            },
        }
    }

    /// The wire layout of a well-formed message: the item id of its kind
    /// (TestMessage 0, OpenChannel 1, AcceptChannel 2, CommitmentSigned 3, TxSignatures 4, ChannelReady 5, TxAdd 6, TxRemove 7, TxComplete 8, TxAbort 9, TxInitRBF 10, TxAckRBF 11, Shutdown 12, ClosingSigned 13, AddTlc 14, TlcsSigned 15, RevokeAndAck 16, RemoveTlc 17), then the item's own bytes.
    pub proof fn lemma_layout(v: SpecPCNMessage)
        requires
            Self::spec_wf(v),
        ensures
            Self::spec_bytes(v).len() >= 4,
            v matches SpecPCNMessage::TestMessage(m) ==> number_at(Self::spec_bytes(v), 0) == 0 && Self::spec_bytes(v).subrange(4, Self::spec_bytes(v).len() as int) == TestMessage::spec_bytes(m),
            v matches SpecPCNMessage::OpenChannel(m) ==> number_at(Self::spec_bytes(v), 0) == 1 && Self::spec_bytes(v).subrange(4, Self::spec_bytes(v).len() as int) == OpenChannel::spec_bytes(m),
            v matches SpecPCNMessage::AcceptChannel(m) ==> number_at(Self::spec_bytes(v), 0) == 2 && Self::spec_bytes(v).subrange(4, Self::spec_bytes(v).len() as int) == AcceptChannel::spec_bytes(m),
            v matches SpecPCNMessage::CommitmentSigned(m) ==> number_at(Self::spec_bytes(v), 0) == 3 && Self::spec_bytes(v).subrange(4, Self::spec_bytes(v).len() as int) == CommitmentSigned::spec_bytes(m),
            v matches SpecPCNMessage::TxSignatures(m) ==> number_at(Self::spec_bytes(v), 0) == 4 && Self::spec_bytes(v).subrange(4, Self::spec_bytes(v).len() as int) == TxSignatures::spec_bytes(m),
            v matches SpecPCNMessage::ChannelReady(m) ==> number_at(Self::spec_bytes(v), 0) == 5 && Self::spec_bytes(v).subrange(4, Self::spec_bytes(v).len() as int) == ChannelReady::spec_bytes(m),
            v matches SpecPCNMessage::TxAdd(m) ==> number_at(Self::spec_bytes(v), 0) == 6 && Self::spec_bytes(v).subrange(4, Self::spec_bytes(v).len() as int) == TxAdd::spec_bytes(m),
            v matches SpecPCNMessage::TxRemove(m) ==> number_at(Self::spec_bytes(v), 0) == 7 && Self::spec_bytes(v).subrange(4, Self::spec_bytes(v).len() as int) == TxRemove::spec_bytes(m),
            v matches SpecPCNMessage::TxComplete(m) ==> number_at(Self::spec_bytes(v), 0) == 8 && Self::spec_bytes(v).subrange(4, Self::spec_bytes(v).len() as int) == TxComplete::spec_bytes(m),
            v matches SpecPCNMessage::TxAbort(m) ==> number_at(Self::spec_bytes(v), 0) == 9 && Self::spec_bytes(v).subrange(4, Self::spec_bytes(v).len() as int) == TxAbort::spec_bytes(m),
            v matches SpecPCNMessage::TxInitRBF(m) ==> number_at(Self::spec_bytes(v), 0) == 10 && Self::spec_bytes(v).subrange(4, Self::spec_bytes(v).len() as int) == TxInitRBF::spec_bytes(m),
            v matches SpecPCNMessage::TxAckRBF(m) ==> number_at(Self::spec_bytes(v), 0) == 11 && Self::spec_bytes(v).subrange(4, Self::spec_bytes(v).len() as int) == TxAckRBF::spec_bytes(m),
            v matches SpecPCNMessage::Shutdown(m) ==> number_at(Self::spec_bytes(v), 0) == 12 && Self::spec_bytes(v).subrange(4, Self::spec_bytes(v).len() as int) == Shutdown::spec_bytes(m),
            v matches SpecPCNMessage::ClosingSigned(m) ==> number_at(Self::spec_bytes(v), 0) == 13 && Self::spec_bytes(v).subrange(4, Self::spec_bytes(v).len() as int) == ClosingSigned::spec_bytes(m),
            v matches SpecPCNMessage::AddTlc(m) ==> number_at(Self::spec_bytes(v), 0) == 14 && Self::spec_bytes(v).subrange(4, Self::spec_bytes(v).len() as int) == AddTlc::spec_bytes(m),
            v matches SpecPCNMessage::TlcsSigned(m) ==> number_at(Self::spec_bytes(v), 0) == 15 && Self::spec_bytes(v).subrange(4, Self::spec_bytes(v).len() as int) == TlcsSigned::spec_bytes(m),
            v matches SpecPCNMessage::RevokeAndAck(m) ==> number_at(Self::spec_bytes(v), 0) == 16 && Self::spec_bytes(v).subrange(4, Self::spec_bytes(v).len() as int) == RevokeAndAck::spec_bytes(m),
            v matches SpecPCNMessage::RemoveTlc(m) ==> number_at(Self::spec_bytes(v), 0) == 17 && Self::spec_bytes(v).subrange(4, Self::spec_bytes(v).len() as int) == RemoveTlc::spec_bytes(m),
    {
        lemma_pow256_values();
        match v {
            SpecPCNMessage::TestMessage(m) => {
                lemma_number_of_prefix(0, TestMessage::spec_bytes(m));
            },
            SpecPCNMessage::OpenChannel(m) => {
                lemma_number_of_prefix(1, OpenChannel::spec_bytes(m));
            },
            SpecPCNMessage::AcceptChannel(m) => {
                lemma_number_of_prefix(2, AcceptChannel::spec_bytes(m));
            },
            SpecPCNMessage::CommitmentSigned(m) => {
                lemma_number_of_prefix(3, CommitmentSigned::spec_bytes(m));
            },
            SpecPCNMessage::TxSignatures(m) => {
                lemma_number_of_prefix(4, TxSignatures::spec_bytes(m));
            },
            SpecPCNMessage::ChannelReady(m) => {
                lemma_number_of_prefix(5, ChannelReady::spec_bytes(m));
            },
            SpecPCNMessage::TxAdd(m) => {
                lemma_number_of_prefix(6, TxAdd::spec_bytes(m));
            },
            SpecPCNMessage::TxRemove(m) => {
                lemma_number_of_prefix(7, TxRemove::spec_bytes(m));
            },
            SpecPCNMessage::TxComplete(m) => {
                lemma_number_of_prefix(8, TxComplete::spec_bytes(m));
            },
            SpecPCNMessage::TxAbort(m) => {
                lemma_number_of_prefix(9, TxAbort::spec_bytes(m));
            },
            SpecPCNMessage::TxInitRBF(m) => {
                lemma_number_of_prefix(10, TxInitRBF::spec_bytes(m));
            },
            SpecPCNMessage::TxAckRBF(m) => {
                lemma_number_of_prefix(11, TxAckRBF::spec_bytes(m));
            },
            SpecPCNMessage::Shutdown(m) => {
                lemma_number_of_prefix(12, Shutdown::spec_bytes(m));
            },
            SpecPCNMessage::ClosingSigned(m) => {
                lemma_number_of_prefix(13, ClosingSigned::spec_bytes(m));
            },
            SpecPCNMessage::AddTlc(m) => {
                lemma_number_of_prefix(14, AddTlc::spec_bytes(m));
            },
            SpecPCNMessage::TlcsSigned(m) => {
                lemma_number_of_prefix(15, TlcsSigned::spec_bytes(m));
            },
            SpecPCNMessage::RevokeAndAck(m) => {
                lemma_number_of_prefix(16, RevokeAndAck::spec_bytes(m));
            },
            SpecPCNMessage::RemoveTlc(m) => {
                lemma_number_of_prefix(17, RemoveTlc::spec_bytes(m));
            },
        }
    }

    /// What decoding accepts starts with the item id of the kind of message
    /// it gives, and the rest is that message's bytes.
    pub proof fn lemma_decoded_layout(b: Seq<u8>, v: SpecPCNMessage)
        requires
            Self::spec_decode(b) == Ok::<SpecPCNMessage, SpecError>(v),
        ensures
            b.len() >= 4,
            v matches SpecPCNMessage::TestMessage(m) ==> number_at(b, 0) == 0 && b.subrange(4, b.len() as int) == TestMessage::spec_bytes(m),
            v matches SpecPCNMessage::OpenChannel(m) ==> number_at(b, 0) == 1 && b.subrange(4, b.len() as int) == OpenChannel::spec_bytes(m),
            v matches SpecPCNMessage::AcceptChannel(m) ==> number_at(b, 0) == 2 && b.subrange(4, b.len() as int) == AcceptChannel::spec_bytes(m),
            v matches SpecPCNMessage::CommitmentSigned(m) ==> number_at(b, 0) == 3 && b.subrange(4, b.len() as int) == CommitmentSigned::spec_bytes(m),
            v matches SpecPCNMessage::TxSignatures(m) ==> number_at(b, 0) == 4 && b.subrange(4, b.len() as int) == TxSignatures::spec_bytes(m),
            v matches SpecPCNMessage::ChannelReady(m) ==> number_at(b, 0) == 5 && b.subrange(4, b.len() as int) == ChannelReady::spec_bytes(m),
            v matches SpecPCNMessage::TxAdd(m) ==> number_at(b, 0) == 6 && b.subrange(4, b.len() as int) == TxAdd::spec_bytes(m),
            v matches SpecPCNMessage::TxRemove(m) ==> number_at(b, 0) == 7 && b.subrange(4, b.len() as int) == TxRemove::spec_bytes(m),
            v matches SpecPCNMessage::TxComplete(m) ==> number_at(b, 0) == 8 && b.subrange(4, b.len() as int) == TxComplete::spec_bytes(m),
            v matches SpecPCNMessage::TxAbort(m) ==> number_at(b, 0) == 9 && b.subrange(4, b.len() as int) == TxAbort::spec_bytes(m),
            v matches SpecPCNMessage::TxInitRBF(m) ==> number_at(b, 0) == 10 && b.subrange(4, b.len() as int) == TxInitRBF::spec_bytes(m),
            v matches SpecPCNMessage::TxAckRBF(m) ==> number_at(b, 0) == 11 && b.subrange(4, b.len() as int) == TxAckRBF::spec_bytes(m),
            v matches SpecPCNMessage::Shutdown(m) ==> number_at(b, 0) == 12 && b.subrange(4, b.len() as int) == Shutdown::spec_bytes(m),
            v matches SpecPCNMessage::ClosingSigned(m) ==> number_at(b, 0) == 13 && b.subrange(4, b.len() as int) == ClosingSigned::spec_bytes(m),
            v matches SpecPCNMessage::AddTlc(m) ==> number_at(b, 0) == 14 && b.subrange(4, b.len() as int) == AddTlc::spec_bytes(m),
            v matches SpecPCNMessage::TlcsSigned(m) ==> number_at(b, 0) == 15 && b.subrange(4, b.len() as int) == TlcsSigned::spec_bytes(m),
            v matches SpecPCNMessage::RevokeAndAck(m) ==> number_at(b, 0) == 16 && b.subrange(4, b.len() as int) == RevokeAndAck::spec_bytes(m),
            v matches SpecPCNMessage::RemoveTlc(m) ==> number_at(b, 0) == 17 && b.subrange(4, b.len() as int) == RemoveTlc::spec_bytes(m),
    {
        Self::lemma_canonical(b, v);
        Self::lemma_decoded_wf(b, v);
        Self::lemma_layout(v);
    }
}

} // verus!
