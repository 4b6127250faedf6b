//! Scripts and transactions of the CKB chain, carried in wire messages as
//! their molecule bytes; ckb-types decides which bytes are well formed.
use vstd::prelude::*;

use ckb_types::error::VerificationError as CkbVerificationError;
use ckb_types::prelude::Reader;

use crate::molecule::{
    and_then, array_check, check_view, copy_bytes, field_at, fixvec_check, table_layout,
    SpecVerificationError, VerificationError,
};

verus! {

/// What ckb-types' `ScriptReader::verify` answers for the bytes in strict mode:
/// a molecule table of exactly three fields, a 32-byte code hash, a one-byte
/// hash type and the args as a byte vector, checked in that order.
pub open spec fn ckb_script_check(bytes: Seq<u8>) -> Result<(), SpecVerificationError> {
    match table_layout("ScriptReader"@, bytes, 3) {
        Err(e) => Err(e),
        Ok(_) => and_then(
            array_check("Byte32Reader"@, 32, field_at(bytes, 3, 0)),
            and_then(
                array_check("ByteReader"@, 1, field_at(bytes, 3, 1)),
                fixvec_check("BytesReader"@, 1, field_at(bytes, 3, 2)),
            ),
        ),
    }
}

/// What ckb-types' `TransactionReader::verify` answers for the bytes.
pub uninterp spec fn ckb_transaction_check(bytes: Seq<u8>) -> Result<(), SpecVerificationError>;

/// ckb-types' `ScriptReader::verify`, in strict mode: claims that it answers
/// as `ckb_script_check` says, which is the table check that its generated
/// code makes, followed by the checks of its three fields.
#[verifier::external_body]
pub(crate) fn ckb_verify_script(bytes: &[u8]) -> (r: Result<(), VerificationError>)
    ensures
        check_view(r) == ckb_script_check(bytes@),
{
    match ckb_types::packed::ScriptReader::verify(bytes, false) {
        Ok(()) => Ok(()),
        Err(e) => Err(match e {
            CkbVerificationError::TotalSizeNotMatch(n, a, b) => VerificationError::TotalSizeNotMatch(n, a, b),
            CkbVerificationError::HeaderIsBroken(n, a, b) => VerificationError::HeaderIsBroken(n, a, b),
            CkbVerificationError::UnknownItem(n, a, b) => VerificationError::UnknownItem(n, a, b),
            CkbVerificationError::OffsetsNotMatch(n) => VerificationError::OffsetsNotMatch(n),
            CkbVerificationError::FieldCountNotMatch(n, a, b) => VerificationError::FieldCountNotMatch(n, a, b),
        }),
    }
}

/// ckb-types' `TransactionReader::verify`, in strict mode: claims that its
/// answer is a function of the bytes, named `ckb_transaction_check`, and (its
/// first check) that it refuses fewer than four bytes.
#[verifier::external_body]
pub(crate) fn ckb_verify_transaction(bytes: &[u8]) -> (r: Result<(), VerificationError>)
    ensures
        check_view(r) == ckb_transaction_check(bytes@),
        r is Ok ==> bytes@.len() >= 4,
{
    match ckb_types::packed::TransactionReader::verify(bytes, false) {
        Ok(()) => Ok(()),
        Err(e) => Err(match e {
            CkbVerificationError::TotalSizeNotMatch(n, a, b) => VerificationError::TotalSizeNotMatch(n, a, b),
            CkbVerificationError::HeaderIsBroken(n, a, b) => VerificationError::HeaderIsBroken(n, a, b),
            CkbVerificationError::UnknownItem(n, a, b) => VerificationError::UnknownItem(n, a, b),
            CkbVerificationError::OffsetsNotMatch(n) => VerificationError::OffsetsNotMatch(n),
            CkbVerificationError::FieldCountNotMatch(n, a, b) => VerificationError::FieldCountNotMatch(n, a, b),
        }),
    }
}

/// A lock or type script, as its molecule bytes.
#[derive(Clone, Debug, PartialEq, Eq)]
pub struct Script {
    pub bytes: Vec<u8>,
}

impl View for Script {
    type V = Seq<u8>;

    open spec fn view(&self) -> Seq<u8> {
        self.bytes@
    }
}

impl Script {
    /// The bytes are a script that ckb-types accepts.
    pub open spec fn wf(&self) -> bool {
        ckb_script_check(self@) == Ok::<(), SpecVerificationError>(()) && self@.len() >= 4
    }

    /// The script in these bytes, or why ckb-types refuses them.
    pub fn from_slice(bytes: &[u8]) -> (r: Result<Script, VerificationError>)
        ensures
            match r {
                Ok(s) => s.wf() && s@ == bytes@,
                Err(e) => ckb_script_check(bytes@) == Err::<(), SpecVerificationError>(e@),
            },
    {
        match ckb_verify_script(bytes) {
            Ok(()) => Ok(Script { bytes: copy_bytes(bytes) }),
            Err(e) => Err(e),
        }
    }
}

/// A transaction, as its molecule bytes.
#[derive(Clone, Debug, PartialEq, Eq)]
pub struct Transaction {
    pub bytes: Vec<u8>,
}

impl View for Transaction {
    type V = Seq<u8>;

    open spec fn view(&self) -> Seq<u8> {
        self.bytes@
    }
}

impl Transaction {
    /// The bytes are a transaction that ckb-types accepts.
    pub open spec fn wf(&self) -> bool {
        ckb_transaction_check(self@) == Ok::<(), SpecVerificationError>(()) && self@.len() >= 4
    }

    /// The transaction in these bytes, or why ckb-types refuses them.
    pub fn from_slice(bytes: &[u8]) -> (r: Result<Transaction, VerificationError>)
        ensures
            match r {
                Ok(t) => t.wf() && t@ == bytes@,
                Err(e) => ckb_transaction_check(bytes@) == Err::<(), SpecVerificationError>(e@),
            },
    {
        match ckb_verify_transaction(bytes) {
            Ok(()) => Ok(Transaction { bytes: copy_bytes(bytes) }),
            Err(e) => Err(e),
        }
    }
}

} // verus!
