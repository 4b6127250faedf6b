//! The field types that wire messages are made of: how molecule checks each,
//! how each is written, and what value each reads back as.
use vstd::prelude::*;

use crate::ckb::{
    ckb_script_check, ckb_transaction_check, ckb_verify_script, ckb_verify_transaction, Script,
    Transaction,
};
use crate::error::{Error, SecpError, SpecError};
use crate::keys::{
    bytes32, bytes33, bytes64, bytes66, musig2_parse_pub_nonce, musig2_pub_nonce_error,
    musig2_pub_nonce_valid,
    secp_compact_signature_valid, secp_parse_compact_signature, secp_parse_public_key,
    secp_public_key_valid, Hash256, PubNonce, Pubkey, Signature,
};
use crate::le::{
    le_bytes, le_value, lemma_le_bytes_len, lemma_le_bytes_mod, lemma_le_bytes_of_value,
    lemma_le_value_of_bytes, lemma_pow256_values, push_le, read_le,
};
use crate::molecule::{
    and_then, append_bytes, array_check, check_array, check_dynvec_layout, check_fixvec,
    check_view, concat, copy_bytes, dynvec_layout, field_at, fields_of, fixvec_check, item_at,
    lemma_concat_chunks, lemma_concat_element, lemma_concat_len_all, lemma_concat_uniform,
    lemma_dynvec_bytes_accepted, lemma_dynvec_canonical, number_at, offset_at, prefix_len,
    table_bytes, views, write_table, SpecVerificationError, VerificationError,
};

verus! {

/// The view of a decoding result.
pub open spec fn result_view<T: View>(r: Result<T, Error>) -> Result<T::V, SpecError> {
    match r {
        Ok(v) => Ok(v@),
        Err(e) => Err(e@),
    }
}

/// The first failure of a molecule check and a conversion made after it.
pub open spec fn then_convert<T>(
    a: Result<(), SpecVerificationError>,
    b: Result<T, SpecError>,
) -> Result<T, SpecError> {
    match a {
        Err(e) => Err(SpecError::Molecule(e)),
        Ok(_) => b,
    }
}

/// The number of four little-endian bytes at the start.
pub proof fn lemma_number_of_prefix(n: nat, rest: Seq<u8>)
    requires
        n < 0x1_0000_0000,
    ensures
        number_at(le_bytes(n, 4) + rest, 0) == n,
        (le_bytes(n, 4) + rest).len() == 4 + rest.len(),
        (le_bytes(n, 4) + rest).subrange(4, 4 + rest.len() as int) == rest,
{
    lemma_le_bytes_len(n, 4);
    lemma_pow256_values();
    lemma_le_value_of_bytes(n, 4);
    assert((le_bytes(n, 4) + rest).subrange(0, 4) =~= le_bytes(n, 4));
    assert((le_bytes(n, 4) + rest).subrange(4, 4 + rest.len() as int) =~= rest);
}

/// A concatenation of sequences none longer than `w` is no longer than `w` for each.
pub proof fn lemma_concat_len_le(fs: Seq<Seq<u8>>, w: int)
    requires
        w >= 0,
        forall|i: int| 0 <= i < fs.len() ==> (#[trigger] fs[i]).len() <= w,
    ensures
        concat(fs).len() <= w * fs.len(),
    decreases fs.len(),
{
    if fs.len() > 0 {
        let d = fs.drop_last();
        assert forall|i: int| 0 <= i < d.len() implies (#[trigger] d[i]).len() <= w by {
            assert(d[i] == fs[i]);
        }
        lemma_concat_len_le(d, w);
        assert(w * (fs.len() - 1) + w == w * fs.len()) by (nonlinear_arith);
    }
}

// ------------------------------------------------------------------ Byte32

pub open spec fn hash_check(b: Seq<u8>) -> Result<(), SpecVerificationError> {
    array_check("Byte32Reader"@, 32, b)
}

pub fn check_hash(b: &[u8]) -> (r: Result<(), VerificationError>)
    ensures
        check_view(r) == hash_check(b@),
{
    check_array("Byte32Reader", 32, b)
}

pub fn read_hash(b: &[u8]) -> (h: Hash256)
    requires
        b@.len() == 32,
    ensures
        h@ == b@,
{
    Hash256(bytes32(b))
}

pub fn hash_field(h: &Hash256) -> (v: Vec<u8>)
    ensures
        v@ == h@,
{
    copy_bytes(h.0.as_slice())
}

// ------------------------------------------------------------------ Uint64 / Uint32 / byte

pub open spec fn u64_check(b: Seq<u8>) -> Result<(), SpecVerificationError> {
    array_check("Uint64Reader"@, 8, b)
}

pub open spec fn u64_bytes(v: u64) -> Seq<u8> {
    le_bytes(v as nat, 8)
}

pub open spec fn u64_value(b: Seq<u8>) -> u64 {
    le_value(b) as u64
}

pub fn check_u64(b: &[u8]) -> (r: Result<(), VerificationError>)
    ensures
        check_view(r) == u64_check(b@),
{
    check_array("Uint64Reader", 8, b)
}

pub fn read_u64(b: &[u8]) -> (v: u64)
    requires
        b@.len() == 8,
    ensures
        v == u64_value(b@),
{
    let v = read_le(b, 0, 8);
    assert(b@.subrange(0, 8) =~= b@);
    v
}

pub fn u64_field(v: u64) -> (out: Vec<u8>)
    ensures
        out@ == u64_bytes(v),
{
    let mut out: Vec<u8> = Vec::new();
    push_le(&mut out, v, 8);
    assert(out@ =~= u64_bytes(v));
    out
}

pub proof fn lemma_u64_field(v: u64)
    ensures
        u64_check(u64_bytes(v)) == Ok::<(), SpecVerificationError>(()),
        u64_value(u64_bytes(v)) == v,
{
    lemma_le_bytes_len(v as nat, 8);
    lemma_pow256_values();
    lemma_le_value_of_bytes(v as nat, 8);
}

/// Checked bytes of a number are the bytes of the number they read as.
pub proof fn lemma_u64_canonical(b: Seq<u8>)
    requires
        u64_check(b) == Ok::<(), SpecVerificationError>(()),
    ensures
        u64_bytes(u64_value(b)) == b,
{
    lemma_le_bytes_of_value(b);
    lemma_pow256_values();
}

pub open spec fn u32_check(b: Seq<u8>) -> Result<(), SpecVerificationError> {
    array_check("Uint32Reader"@, 4, b)
}

pub open spec fn u32_bytes(v: u32) -> Seq<u8> {
    le_bytes(v as nat, 4)
}

pub open spec fn u32_value(b: Seq<u8>) -> u32 {
    le_value(b) as u32
}

pub fn check_u32(b: &[u8]) -> (r: Result<(), VerificationError>)
    ensures
        check_view(r) == u32_check(b@),
{
    check_array("Uint32Reader", 4, b)
}

pub fn read_u32(b: &[u8]) -> (v: u32)
    requires
        b@.len() == 4,
    ensures
        v == u32_value(b@),
{
    let v = read_le(b, 0, 4);
    assert(b@.subrange(0, 4) =~= b@);
    proof {
        crate::le::lemma_le_bytes_of_value(b@);
        lemma_pow256_values();
    }
    v as u32
}

pub fn u32_field(v: u32) -> (out: Vec<u8>)
    ensures
        out@ == u32_bytes(v),
{
    let mut out: Vec<u8> = Vec::new();
    push_le(&mut out, v as u64, 4);
    assert(out@ =~= u32_bytes(v));
    out
}

pub proof fn lemma_u32_field(v: u32)
    ensures
        u32_check(u32_bytes(v)) == Ok::<(), SpecVerificationError>(()),
        u32_value(u32_bytes(v)) == v,
{
    lemma_le_bytes_len(v as nat, 4);
    lemma_pow256_values();
    lemma_le_value_of_bytes(v as nat, 4);
}

/// Checked bytes of a number are the bytes of the number they read as.
pub proof fn lemma_u32_canonical(b: Seq<u8>)
    requires
        u32_check(b) == Ok::<(), SpecVerificationError>(()),
    ensures
        u32_bytes(u32_value(b)) == b,
{
    lemma_le_bytes_of_value(b);
    lemma_pow256_values();
}

/// A checked byte field is the one byte it reads as.
pub proof fn lemma_byte_canonical(b: Seq<u8>)
    requires
        byte_check(b) == Ok::<(), SpecVerificationError>(()),
    ensures
        seq![b[0]] == b,
{
    assert(seq![b[0]] =~= b);
}

pub open spec fn byte_check(b: Seq<u8>) -> Result<(), SpecVerificationError> {
    array_check("ByteReader"@, 1, b)
}

pub fn check_byte(b: &[u8]) -> (r: Result<(), VerificationError>)
    ensures
        check_view(r) == byte_check(b@),
{
    check_array("ByteReader", 1, b)
}

pub fn byte_field(v: u8) -> (out: Vec<u8>)
    ensures
        out@ == seq![v],
{
    let mut out: Vec<u8> = Vec::new();
    out.push(v);
    assert(out@ =~= seq![v]);
    out
}

// ------------------------------------------------------------------ Pubkey / Signature / Byte66

pub open spec fn pubkey_check(b: Seq<u8>) -> Result<(), SpecVerificationError> {
    array_check("PubkeyReader"@, 33, b)
}

/// The public key in checked bytes, or secp256k1's refusal.
pub open spec fn pubkey_value(b: Seq<u8>) -> Result<Seq<u8>, SpecError> {
    if secp_public_key_valid(b) {
        Ok(b)
    } else {
        Err(SpecError::Secp(SecpError::InvalidPublicKey))
    }
}

pub fn check_pubkey(b: &[u8]) -> (r: Result<(), VerificationError>)
    ensures
        check_view(r) == pubkey_check(b@),
{
    check_array("PubkeyReader", 33, b)
}

pub fn read_pubkey(b: &[u8]) -> (r: Result<Pubkey, Error>)
    requires
        b@.len() == 33,
    ensures
        result_view(r) == pubkey_value(b@),
        r matches Ok(k) ==> k.wf(),
{
    if secp_parse_public_key(b) {
        Ok(Pubkey(bytes33(b)))
    } else {
        Err(Error::Secp(SecpError::InvalidPublicKey))
    }
}

pub fn pubkey_field(k: &Pubkey) -> (v: Vec<u8>)
    ensures
        v@ == k@,
{
    copy_bytes(k.0.as_slice())
}

pub open spec fn signature_check(b: Seq<u8>) -> Result<(), SpecVerificationError> {
    array_check("SignatureReader"@, 64, b)
}

/// The signature in checked bytes, or secp256k1's refusal.
pub open spec fn signature_value(b: Seq<u8>) -> Result<Seq<u8>, SpecError> {
    if secp_compact_signature_valid(b) {
        Ok(b)
    } else {
        Err(SpecError::Secp(SecpError::InvalidSignature))
    }
}

pub fn check_signature(b: &[u8]) -> (r: Result<(), VerificationError>)
    ensures
        check_view(r) == signature_check(b@),
{
    check_array("SignatureReader", 64, b)
}

pub fn read_signature(b: &[u8]) -> (r: Result<Signature, Error>)
    requires
        b@.len() == 64,
    ensures
        result_view(r) == signature_value(b@),
        r matches Ok(s) ==> s.wf(),
{
    if secp_parse_compact_signature(b) {
        Ok(Signature(bytes64(b)))
    } else {
        Err(Error::Secp(SecpError::InvalidSignature))
    }
}

pub fn signature_field(s: &Signature) -> (v: Vec<u8>)
    ensures
        v@ == s@,
{
    copy_bytes(s.0.as_slice())
}

pub open spec fn nonce_check(b: Seq<u8>) -> Result<(), SpecVerificationError> {
    array_check("Byte66Reader"@, 66, b)
}

/// The nonce in checked bytes, or musig2's refusal with its text.
pub open spec fn nonce_value(b: Seq<u8>) -> Result<Seq<u8>, SpecError> {
    if musig2_pub_nonce_valid(b) {
        Ok(b)
    } else {
        Err(SpecError::Musig2(musig2_pub_nonce_error(b)))
    }
}

pub fn check_nonce(b: &[u8]) -> (r: Result<(), VerificationError>)
    ensures
        check_view(r) == nonce_check(b@),
{
    check_array("Byte66Reader", 66, b)
}

pub fn read_nonce(b: &[u8]) -> (r: Result<PubNonce, Error>)
    requires
        b@.len() == 66,
    ensures
        result_view(r) == nonce_value(b@),
        r matches Ok(n) ==> n.wf(),
{
    match musig2_parse_pub_nonce(b) {
        Ok(()) => Ok(PubNonce(bytes66(b))),
        Err(msg) => Err(Error::Musig2(msg)),
    }
}

pub fn nonce_field(n: &PubNonce) -> (v: Vec<u8>)
    ensures
        v@ == n@,
{
    copy_bytes(n.0.as_slice())
}

// ------------------------------------------------------------------ Bytes

pub open spec fn bytes_check(b: Seq<u8>) -> Result<(), SpecVerificationError> {
    fixvec_check("BytesReader"@, 1, b)
}

/// A byte string with its length in front.
pub open spec fn bytes_bytes(s: Seq<u8>) -> Seq<u8> {
    le_bytes(s.len(), 4) + s
}

pub open spec fn bytes_value(b: Seq<u8>) -> Seq<u8> {
    b.subrange(4, b.len() as int)
}

pub fn check_bytes(b: &[u8]) -> (r: Result<(), VerificationError>)
    ensures
        check_view(r) == bytes_check(b@),
        r is Ok ==> b@.len() >= 4,
{
    check_fixvec("BytesReader", 1, b)
}

pub fn read_bytes(b: &[u8]) -> (v: Vec<u8>)
    requires
        b@.len() >= 4,
    ensures
        v@ == bytes_value(b@),
{
    copy_bytes(&b[4..b.len()])
}

pub fn bytes_field(s: &[u8]) -> (out: Vec<u8>)
    ensures
        out@ == bytes_bytes(s@),
{
    let mut out: Vec<u8> = Vec::new();
    let n: u64 = (s.len() as u64) % 0x1_0000_0000;
    push_le(&mut out, n, 4);
    proof {
        lemma_pow256_values();
        lemma_le_bytes_mod(s@.len() as nat, 4);
    }
    append_bytes(&mut out, s);
    out
}

pub proof fn lemma_bytes_field(s: Seq<u8>)
    requires
        s.len() < 0x1_0000_0000,
    ensures
        bytes_check(bytes_bytes(s)) == Ok::<(), SpecVerificationError>(()),
        bytes_value(bytes_bytes(s)) == s,
{
    lemma_number_of_prefix(s.len(), s);
}

/// Checked bytes of a byte string are the bytes of the string they read as.
pub proof fn lemma_bytes_canonical(b: Seq<u8>)
    requires
        bytes_check(b) == Ok::<(), SpecVerificationError>(()),
    ensures
        bytes_bytes(bytes_value(b)) == b,
{
    let head = b.subrange(0, 4);
    lemma_le_bytes_of_value(head);
    assert(bytes_value(b).len() == le_value(head));
    assert(head + bytes_value(b) =~= b);
}

/// The string in checked bytes fits its four-byte length.
pub proof fn lemma_bytes_value_fits(b: Seq<u8>)
    requires
        bytes_check(b) == Ok::<(), SpecVerificationError>(()),
    ensures
        bytes_value(b).len() < 0x1_0000_0000,
{
    lemma_le_bytes_of_value(b.subrange(0, 4));
    lemma_pow256_values();
}

// ------------------------------------------------------------------ BytesVec

/// The first failure among the checks of the first `k` items of a vector of byte strings.
pub open spec fn bytes_items_check(b: Seq<u8>, n: int, k: int) -> Result<(), SpecVerificationError>
    decreases k,
{
    if k <= 0 {
        Ok(())
    } else {
        and_then(bytes_items_check(b, n, k - 1), bytes_check(field_at(b, n, k - 1)))
    }
}

pub open spec fn bytes_vec_check(b: Seq<u8>) -> Result<(), SpecVerificationError> {
    match dynvec_layout("BytesVecReader"@, b) {
        Err(e) => Err(e),
        Ok(n) => bytes_items_check(b, n, n),
    }
}

pub open spec fn bytes_vec_len(b: Seq<u8>) -> int {
    match dynvec_layout("BytesVecReader"@, b) {
        Err(e) => 0,
        Ok(n) => n,
    }
}

pub open spec fn bytes_vec_value(b: Seq<u8>) -> Seq<Seq<u8>> {
    Seq::new(bytes_vec_len(b) as nat, |i: int| bytes_value(field_at(b, bytes_vec_len(b), i)))
}

pub open spec fn bytes_vec_bytes(items: Seq<Seq<u8>>) -> Seq<u8> {
    table_bytes(items.map_values(|s: Seq<u8>| bytes_bytes(s)))
}

/// Every item fits its four-byte length, and the whole vector fits its total size.
pub open spec fn bytes_vec_fits(items: Seq<Seq<u8>>) -> bool {
    &&& forall|i: int| 0 <= i < items.len() ==> (#[trigger] items[i]).len() < 0x1_0000_0000
    &&& bytes_vec_bytes(items).len() < 0x1_0000_0000
}

proof fn lemma_bytes_items_check_err(b: Seq<u8>, n: int, k: int, m: int)
    requires
        0 <= k <= m,
        bytes_items_check(b, n, k) is Err,
    ensures
        bytes_items_check(b, n, m) == bytes_items_check(b, n, k),
    decreases m - k,
{
    if k < m {
        lemma_bytes_items_check_err(b, n, k, m - 1);
    }
}

pub fn check_bytes_vec(b: &[u8]) -> (r: Result<Vec<usize>, VerificationError>)
    ensures
        match r {
            Ok(os) => {
                &&& bytes_vec_check(b@) == Ok::<(), SpecVerificationError>(())
                &&& os@.len() == bytes_vec_len(b@) + 1
                &&& forall|i: int| 0 <= i < os@.len() ==> os@[i] == offset_at(b@, os@.len() - 1, i)
                &&& forall|i: int, j: int| 0 <= i <= j < os@.len() ==> #[trigger] os@[i] <= #[trigger] os@[j] <= b@.len()
                &&& forall|i: int| 0 <= i < os@.len() - 1 ==> #[trigger] field_at(b@, os@.len() - 1, i).len() >= 4
            },
            Err(e) => bytes_vec_check(b@) == Err::<(), SpecVerificationError>(e@),
        },
{
    let os = match check_dynvec_layout("BytesVecReader", b) {
        Ok(os) => os,
        Err(e) => {
            return Err(e);
        },
    };
    let n = os.len() - 1;
    let mut i: usize = 0;
    while i < n
        invariant
            n == os@.len() - 1,
            dynvec_layout("BytesVecReader"@, b@) == Ok::<int, SpecVerificationError>(n as int),
            forall|j: int| 0 <= j < os@.len() ==> os@[j] == offset_at(b@, n as int, j),
            forall|j: int, k: int| 0 <= j <= k < os@.len() ==> #[trigger] os@[j] <= #[trigger] os@[k] <= b@.len(),
            i <= n,
            bytes_items_check(b@, n as int, i as int) == Ok::<(), SpecVerificationError>(()),
            forall|j: int| 0 <= j < i ==> #[trigger] field_at(b@, n as int, j).len() >= 4,
        decreases n - i,
    {
        assert(os@[i as int] <= os@[i + 1]);
        let item = &b[os[i]..os[i + 1]];
        assert(item@ == field_at(b@, n as int, i as int));
        match check_bytes(item) {
            Ok(()) => {},
            Err(e) => {
                proof {
                    lemma_bytes_items_check_err(b@, n as int, i + 1, n as int);
                }
                return Err(e);
            },
        }
        i = i + 1;
    }
    Ok(os)
}

pub fn read_bytes_vec(b: &[u8], os: &Vec<usize>) -> (v: Vec<Vec<u8>>)
    requires
        os@.len() >= 1,
        forall|i: int| 0 <= i < os@.len() ==> os@[i] == offset_at(b@, os@.len() - 1, i),
        forall|i: int, j: int| 0 <= i <= j < os@.len() ==> #[trigger] os@[i] <= #[trigger] os@[j] <= b@.len(),
        forall|i: int| 0 <= i < os@.len() - 1 ==> #[trigger] field_at(b@, os@.len() - 1, i).len() >= 4,
    ensures
        views(v@) == Seq::new((os@.len() - 1) as nat, |i: int| bytes_value(field_at(b@, os@.len() - 1, i))),
{
    let n = os.len() - 1;
    let mut v: Vec<Vec<u8>> = Vec::new();
    let mut i: usize = 0;
    while i < n
        invariant
            n == os@.len() - 1,
            forall|j: int| 0 <= j < os@.len() ==> os@[j] == offset_at(b@, n as int, j),
            forall|j: int, k: int| 0 <= j <= k < os@.len() ==> #[trigger] os@[j] <= #[trigger] os@[k] <= b@.len(),
            forall|j: int| 0 <= j < n ==> #[trigger] field_at(b@, n as int, j).len() >= 4,
            i <= n,
            views(v@) == Seq::new(i as nat, |j: int| bytes_value(field_at(b@, n as int, j))),
        decreases n - i,
    {
        assert(os@[i as int] <= os@[i + 1]);
        let item = &b[os[i]..os[i + 1]];
        assert(item@ == field_at(b@, n as int, i as int));
        let s = read_bytes(item);
        let ghost old_v = v@;
        v.push(s);
        assert(views(v@) =~= views(old_v).push(s@));
        i = i + 1;
        assert(views(v@) =~= Seq::new(i as nat, |j: int| bytes_value(field_at(b@, n as int, j))));
    }
    v
}

pub fn bytes_vec_field(items: &Vec<Vec<u8>>) -> (out: Vec<u8>)
    ensures
        out@ == bytes_vec_bytes(views(items@)),
{
    let mut fs: Vec<Vec<u8>> = Vec::new();
    let mut i: usize = 0;
    while i < items.len()
        invariant
            i <= items@.len(),
            views(fs@) == Seq::new(i as nat, |j: int| bytes_bytes(items@[j]@)),
        decreases items@.len() - i,
    {
        let f = bytes_field(items[i].as_slice());
        let ghost old_fs = fs@;
        fs.push(f);
        assert(views(fs@) =~= views(old_fs).push(f@));
        i = i + 1;
        assert(views(fs@) =~= Seq::new(i as nat, |j: int| bytes_bytes(items@[j]@)));
    }
    assert(views(fs@) =~= views(items@).map_values(|s: Seq<u8>| bytes_bytes(s)));
    write_table(&fs)
}

pub proof fn lemma_bytes_vec_field(items: Seq<Seq<u8>>)
    requires
        bytes_vec_fits(items),
    ensures
        bytes_vec_check(bytes_vec_bytes(items)) == Ok::<(), SpecVerificationError>(()),
        bytes_vec_value(bytes_vec_bytes(items)) == items,
{
    let fs = items.map_values(|s: Seq<u8>| bytes_bytes(s));
    let b = bytes_vec_bytes(items);
    let n = items.len() as int;
    lemma_dynvec_bytes_accepted("BytesVecReader"@, fs);
    assert forall|k: int| 0 <= k <= n implies #[trigger] bytes_items_check(b, n, k) == Ok::<
        (),
        SpecVerificationError,
    >(()) by {
        lemma_bytes_items_ok(items, k);
    }
    assert forall|i: int| 0 <= i < n implies bytes_value(field_at(b, n, i)) == items[i] by {
        lemma_bytes_field(items[i]);
    }
    assert(bytes_vec_value(b) =~= items);
}

proof fn lemma_bytes_items_ok(items: Seq<Seq<u8>>, k: int)
    requires
        bytes_vec_fits(items),
        0 <= k <= items.len(),
    ensures
        bytes_items_check(bytes_vec_bytes(items), items.len() as int, k) == Ok::<
            (),
            SpecVerificationError,
        >(()),
    decreases k,
{
    let fs = items.map_values(|s: Seq<u8>| bytes_bytes(s));
    lemma_dynvec_bytes_accepted("BytesVecReader"@, fs);
    if k > 0 {
        lemma_bytes_items_ok(items, k - 1);
        lemma_bytes_field(items[k - 1]);
    }
}

proof fn lemma_bytes_items_each(b: Seq<u8>, n: int, k: int, i: int)
    requires
        0 <= i < k,
        bytes_items_check(b, n, k) == Ok::<(), SpecVerificationError>(()),
    ensures
        bytes_check(field_at(b, n, i)) == Ok::<(), SpecVerificationError>(()),
    decreases k,
{
    if i < k - 1 {
        lemma_bytes_items_each(b, n, k - 1, i);
    }
}

/// Checked bytes of a vector of byte strings are the bytes of the strings
/// they read as.
pub proof fn lemma_bytes_vec_canonical(b: Seq<u8>)
    requires
        bytes_vec_check(b) == Ok::<(), SpecVerificationError>(()),
    ensures
        bytes_vec_bytes(bytes_vec_value(b)) == b,
{
    let n = bytes_vec_len(b);
    lemma_dynvec_canonical("BytesVecReader"@, b, n);
    let items = bytes_vec_value(b);
    let written = items.map_values(|s: Seq<u8>| bytes_bytes(s));
    assert forall|i: int| 0 <= i < n implies #[trigger] written[i] == fields_of(b, n)[i] by {
        lemma_bytes_items_each(b, n, n, i);
        lemma_bytes_canonical(field_at(b, n, i));
    }
    assert(written =~= fields_of(b, n));
}

/// The strings in a checked vector fit their lengths, and the vector its size.
pub proof fn lemma_bytes_vec_value_fits(b: Seq<u8>)
    requires
        bytes_vec_check(b) == Ok::<(), SpecVerificationError>(()),
    ensures
        bytes_vec_fits(bytes_vec_value(b)),
{
    let n = bytes_vec_len(b);
    let items = bytes_vec_value(b);
    assert forall|i: int| 0 <= i < items.len() implies (#[trigger] items[i]).len() < 0x1_0000_0000 by {
        lemma_bytes_items_each(b, n, n, i);
        lemma_bytes_value_fits(field_at(b, n, i));
    }
    lemma_bytes_vec_canonical(b);
    lemma_le_bytes_of_value(b.subrange(0, 4));
    lemma_pow256_values();
}

// ------------------------------------------------------------------ SignatureVec

pub open spec fn signature_vec_check(b: Seq<u8>) -> Result<(), SpecVerificationError> {
    fixvec_check("SignatureVecReader"@, 64, b)
}

pub open spec fn signature_vec_bytes(sigs: Seq<Seq<u8>>) -> Seq<u8> {
    le_bytes(sigs.len(), 4) + concat(sigs)
}

pub open spec fn signature_vec_items(b: Seq<u8>) -> Seq<Seq<u8>> {
    Seq::new(number_at(b, 0), |i: int| item_at(b, 64, i))
}

/// The signatures in a checked vector, or secp256k1's refusal of one of them.
pub open spec fn signature_vec_value(b: Seq<u8>) -> Result<Seq<Seq<u8>>, SpecError> {
    if forall|i: int|
        0 <= i < signature_vec_items(b).len() ==> secp_compact_signature_valid(
            #[trigger] signature_vec_items(b)[i],
        ) {
        Ok(signature_vec_items(b))
    } else {
        Err(SpecError::Secp(SecpError::InvalidSignature))
    }
}

pub open spec fn signature_views(sigs: Seq<Signature>) -> Seq<Seq<u8>> {
    sigs.map_values(|s: Signature| s@)
}

pub fn check_signature_vec(b: &[u8]) -> (r: Result<(), VerificationError>)
    ensures
        check_view(r) == signature_vec_check(b@),
{
    check_fixvec("SignatureVecReader", 64, b)
}

pub fn read_signature_vec(b: &[u8]) -> (r: Result<Vec<Signature>, Error>)
    requires
        signature_vec_check(b@) == Ok::<(), SpecVerificationError>(()),
    ensures
        match r {
            Ok(v) => signature_vec_value(b@) == Ok::<Seq<Seq<u8>>, SpecError>(signature_views(v@)),
            Err(e) => signature_vec_value(b@) == Err::<Seq<Seq<u8>>, SpecError>(e@),
        },
        r matches Ok(v) ==> forall|i: int| 0 <= i < v@.len() ==> (#[trigger] v@[i]).wf(),
{
    let n = crate::molecule::read_number(b, 0);
    let ghost items = signature_vec_items(b@);
    assert(n == 0 ==> b@.len() == 4);
    assert(b@.len() == 4 + 64 * n) by (nonlinear_arith)
        requires
            n == 0 ==> b@.len() == 4,
            n != 0 ==> b@.len() == 4 + 64 * n,
    ;
    let mut v: Vec<Signature> = Vec::new();
    let mut i: usize = 0;
    let blen = b.len();
    while i < n
        invariant
            blen == b@.len(),
            n == items.len(),
            items == signature_vec_items(b@),
            b@.len() == 4 + 64 * n,
            i <= n,
            signature_views(v@) == items.take(i as int),
            forall|j: int| 0 <= j < i ==> secp_compact_signature_valid(#[trigger] items[j]),
            forall|j: int| 0 <= j < v@.len() ==> (#[trigger] v@[j]).wf(),
        decreases n - i,
    {
        assert(4 + 64 * (i + 1) <= 4 + 64 * n) by (nonlinear_arith)
            requires
                i < n,
        ;
        let item = &b[4 + 64 * i..4 + 64 * (i + 1)];
        assert(item@ == items[i as int]);
        match read_signature(item) {
            Ok(s) => {
                let ghost old_v = v@;
                v.push(s);
                assert(signature_views(v@) =~= signature_views(old_v).push(s@));
            },
            Err(e) => {
                return Err(e);
            },
        }
        i = i + 1;
        assert(signature_views(v@) =~= items.take(i as int));
    }
    assert(items.take(n as int) =~= items);
    Ok(v)
}

pub fn signature_vec_field(sigs: &Vec<Signature>) -> (out: Vec<u8>)
    ensures
        out@ == signature_vec_bytes(signature_views(sigs@)),
{
    let ghost ss = signature_views(sigs@);
    let mut out: Vec<u8> = Vec::new();
    let n: u64 = (sigs.len() as u64) % 0x1_0000_0000;
    push_le(&mut out, n, 4);
    proof {
        lemma_pow256_values();
        lemma_le_bytes_mod(sigs@.len() as nat, 4);
        assert(ss.take(0) =~= Seq::<Seq<u8>>::empty());
    }
    let ghost head = out@;
    let mut i: usize = 0;
    while i < sigs.len()
        invariant
            ss == signature_views(sigs@),
            i <= sigs@.len(),
            out@ == head + concat(ss.take(i as int)),
        decreases sigs@.len() - i,
    {
        append_bytes(&mut out, sigs[i].0.as_slice());
        proof {
            crate::molecule::lemma_concat_take_succ(ss, i as int);
        }
        i = i + 1;
    }
    assert(ss.take(sigs@.len() as int) =~= ss);
    out
}

pub proof fn lemma_signature_vec_field(sigs: Seq<Seq<u8>>)
    requires
        sigs.len() < 0x1_0000_0000,
        forall|i: int| 0 <= i < sigs.len() ==> (#[trigger] sigs[i]).len() == 64,
    ensures
        signature_vec_check(signature_vec_bytes(sigs)) == Ok::<(), SpecVerificationError>(()),
        signature_vec_items(signature_vec_bytes(sigs)) == sigs,
{
    let b = signature_vec_bytes(sigs);
    let c = concat(sigs);
    lemma_concat_uniform(sigs, 64, sigs.len() as int);
    lemma_concat_len_all(sigs);
    lemma_number_of_prefix(sigs.len(), c);
    assert forall|i: int| 0 <= i < sigs.len() implies #[trigger] item_at(b, 64, i) == sigs[i] by {
        lemma_concat_element(sigs, i);
        lemma_concat_uniform(sigs, 64, i);
        lemma_concat_uniform(sigs, 64, i + 1);
        assert(item_at(b, 64, i) =~= c.subrange(prefix_len(sigs, i), prefix_len(sigs, i + 1)));
    }
    assert(signature_vec_items(b) =~= sigs);
}

/// Checked bytes of a vector of signatures are the bytes of the signatures
/// they read as.
pub proof fn lemma_signature_vec_canonical(b: Seq<u8>)
    requires
        signature_vec_check(b) == Ok::<(), SpecVerificationError>(()),
    ensures
        signature_vec_bytes(signature_vec_items(b)) == b,
{
    let items = signature_vec_items(b);
    let n = number_at(b, 0) as int;
    let head = b.subrange(0, 4);
    lemma_le_bytes_of_value(head);
    assert(b.len() == 4 + 64 * n) by (nonlinear_arith)
        requires
            n == 0 ==> b.len() == 4,
            n != 0 ==> b.len() == 4 + 64 * n,
    ;
    assert forall|j: int| 0 <= j < items.len() implies #[trigger] items[j] == b.subrange(4 + 64 * j, 4 + 64 * j + 64) by {
        assert(4 + 64 * (j + 1) == 4 + 64 * j + 64);
    }
    lemma_concat_chunks(b, items, 64, 4);
    assert(head + b.subrange(4, 4 + 64 * n) =~= b);
}

/// The signatures of a checked vector that secp256k1 accepts are 64 bytes
/// each, and fewer than fit the vector's four-byte count.
pub proof fn lemma_signature_vec_value_wf(b: Seq<u8>, sigs: Seq<Seq<u8>>)
    requires
        signature_vec_check(b) == Ok::<(), SpecVerificationError>(()),
        signature_vec_value(b) == Ok::<Seq<Seq<u8>>, SpecError>(sigs),
    ensures
        sigs.len() < 0x1_0000_0000,
        forall|i: int| 0 <= i < sigs.len() ==> (#[trigger] sigs[i]).len() == 64 && secp_compact_signature_valid(sigs[i]),
{
    let n = number_at(b, 0) as int;
    lemma_le_bytes_of_value(b.subrange(0, 4));
    lemma_pow256_values();
    assert(b.len() == 4 + 64 * n) by (nonlinear_arith)
        requires
            n == 0 ==> b.len() == 4,
            n != 0 ==> b.len() == 4 + 64 * n,
    ;
    assert forall|i: int| 0 <= i < sigs.len() implies (#[trigger] sigs[i]).len() == 64 && secp_compact_signature_valid(sigs[i]) by {
        assert(sigs[i] == signature_vec_items(b)[i]);
        assert(4 + 64 * (i + 1) <= 4 + 64 * n) by (nonlinear_arith)
            requires
                0 <= i < n,
        ;
        assert(4 + 64 * (i + 1) - (4 + 64 * i) == 64);
    }
}

// ------------------------------------------------------------------ Script, ScriptOpt, Transaction

pub open spec fn script_opt_check(b: Seq<u8>) -> Result<(), SpecVerificationError> {
    if b.len() == 0 {
        Ok(())
    } else {
        ckb_script_check(b)
    }
}

pub open spec fn script_opt_bytes(o: Option<Seq<u8>>) -> Seq<u8> {
    match o {
        None => Seq::empty(),
        Some(s) => s,
    }
}

pub open spec fn script_opt_value(b: Seq<u8>) -> Option<Seq<u8>> {
    if b.len() == 0 {
        None
    } else {
        Some(b)
    }
}

pub open spec fn script_opt_view(o: Option<Script>) -> Option<Seq<u8>> {
    match o {
        None => None,
        Some(s) => Some(s@),
    }
}

pub fn check_script_opt(b: &[u8]) -> (r: Result<(), VerificationError>)
    ensures
        check_view(r) == script_opt_check(b@),
{
    if b.len() == 0 {
        Ok(())
    } else {
        ckb_verify_script(b)
    }
}

pub fn read_script_opt(b: &[u8]) -> (o: Option<Script>)
    ensures
        script_opt_view(o) == script_opt_value(b@),
{
    if b.len() == 0 {
        None
    } else {
        Some(Script { bytes: copy_bytes(b) })
    }
}

pub fn script_opt_field(o: &Option<Script>) -> (out: Vec<u8>)
    ensures
        out@ == script_opt_bytes(script_opt_view(*o)),
{
    match o {
        None => Vec::new(),
        Some(s) => copy_bytes(s.bytes.as_slice()),
    }
}

pub fn check_script(b: &[u8]) -> (r: Result<(), VerificationError>)
    ensures
        check_view(r) == ckb_script_check(b@),
{
    ckb_verify_script(b)
}

pub fn read_script(b: &[u8]) -> (s: Script)
    ensures
        s@ == b@,
{
    Script { bytes: copy_bytes(b) }
}

pub fn script_field(s: &Script) -> (out: Vec<u8>)
    ensures
        out@ == s@,
{
    copy_bytes(s.bytes.as_slice())
}

pub fn check_transaction(b: &[u8]) -> (r: Result<(), VerificationError>)
    ensures
        check_view(r) == ckb_transaction_check(b@),
{
    ckb_verify_transaction(b)
}

pub fn read_transaction(b: &[u8]) -> (t: Transaction)
    ensures
        t@ == b@,
{
    Transaction { bytes: copy_bytes(b) }
}

pub fn transaction_field(t: &Transaction) -> (out: Vec<u8>)
    ensures
        out@ == t@,
{
    copy_bytes(t.bytes.as_slice())
}

} // verus!
