//! Keys, signatures, nonces and hashes, held as the bytes that go on the
//! wire; secp256k1 and musig2 decide which bytes are valid.
use vstd::prelude::*;

verus! {

/// The order n of the secp256k1 group.
pub open spec fn secp256k1_order() -> nat {
    0xFFFF_FFFF_FFFF_FFFF_FFFF_FFFF_FFFF_FFFE_BAAE_DCE6_AF48_A03B_BFD2_5E8C_D036_4141nat
}

/// The number that the bytes denote, most significant byte first.
pub open spec fn be_value(s: Seq<u8>) -> nat
    decreases s.len(),
{
    if s.len() == 0 {
        0
    } else {
        be_value(s.drop_last()) * 256 + s.last() as nat
    }
}

/// Whether secp256k1's `ecdsa::Signature::from_compact` accepts the bytes:
/// 64 bytes whose halves r and s, read big-endian, are both below n.
pub open spec fn secp_compact_signature_valid(bytes: Seq<u8>) -> bool {
    &&& bytes.len() == 64
    &&& be_value(bytes.subrange(0, 32)) < secp256k1_order()
    &&& be_value(bytes.subrange(32, 64)) < secp256k1_order()
}

/// Whether secp256k1's `SecretKey::from_slice` accepts the bytes: 32 bytes
/// that, read big-endian, lie strictly between 0 and n.
pub open spec fn secp_secret_key_valid(bytes: Seq<u8>) -> bool {
    &&& bytes.len() == 32
    &&& 0 < be_value(bytes)
    &&& be_value(bytes) < secp256k1_order()
}

/// The prime p over which the curve y² = x³ + 7 of secp256k1 is defined.
pub open spec fn secp256k1_field_prime() -> nat {
    0xFFFF_FFFF_FFFF_FFFF_FFFF_FFFF_FFFF_FFFF_FFFF_FFFF_FFFF_FFFF_FFFF_FFFE_FFFF_FC2Fnat
}

/// The square of `y` modulo p.
pub open spec fn field_square(y: int) -> int {
    (y * y) % (secp256k1_field_prime() as int)
}

/// `x` is the x-coordinate of a point of the curve: x³ + 7 is a square mod p.
pub open spec fn secp_curve_x(x: int) -> bool {
    exists|y: int|
        0 <= y < secp256k1_field_prime() && #[trigger] field_square(y) == (x * x * x + 7) % (
        secp256k1_field_prime() as int)
}

/// Whether secp256k1's `PublicKey::from_slice` accepts 33 bytes: a compressed
/// point, that is a tag of 2 or 3, then an x-coordinate below p, read
/// big-endian, of a point of the curve.
pub open spec fn secp_public_key_valid(bytes: Seq<u8>) -> bool {
    &&& bytes.len() == 33
    &&& (bytes[0] == 2 || bytes[0] == 3)
    &&& be_value(bytes.subrange(1, 33)) < secp256k1_field_prime()
    &&& secp_curve_x(be_value(bytes.subrange(1, 33)) as int)
}

/// The compressed serialization of the public key of a secret key.
pub uninterp spec fn secp_public_key_of(secret: Seq<u8>) -> Seq<u8>;

/// Whether musig2's `PubNonce::from_bytes` accepts the bytes: 66 bytes that
/// are two compressed points, each of which secp256k1 accepts.
pub open spec fn musig2_pub_nonce_valid(bytes: Seq<u8>) -> bool {
    &&& bytes.len() == 66
    &&& secp_public_key_valid(bytes.subrange(0, 33))
    &&& secp_public_key_valid(bytes.subrange(33, 66))
}

/// The text (its `Display` form) of the error that musig2's
/// `PubNonce::from_bytes` gives for bytes that it refuses.
pub uninterp spec fn musig2_pub_nonce_error(bytes: Seq<u8>) -> Seq<char>;

/// secp256k1's `PublicKey::from_slice` on 33 bytes: claims that it succeeds
/// exactly on a compressed point (`secp_public_key_valid`), as
/// `secp256k1_ec_pubkey_parse` decides.
#[verifier::external_body]
pub(crate) fn secp_parse_public_key(bytes: &[u8]) -> (r: bool)
    requires
        bytes@.len() == 33,
    ensures
        r == secp_public_key_valid(bytes@),
{
    secp256k1::PublicKey::from_slice(bytes).is_ok()
}

/// secp256k1's `ecdsa::Signature::from_compact`: claims that it succeeds
/// exactly on 64 bytes whose scalars r and s are both below the group order
/// (`secp_compact_signature_valid`), as its length check and
/// `secp256k1_ecdsa_signature_parse_compact` decide.
#[verifier::external_body]
pub(crate) fn secp_parse_compact_signature(bytes: &[u8]) -> (r: bool)
    ensures
        r == secp_compact_signature_valid(bytes@),
{
    secp256k1::ecdsa::Signature::from_compact(bytes).is_ok()
}

/// secp256k1's `SecretKey::from_slice`: claims that it succeeds exactly on 32
/// bytes that are a nonzero scalar below the group order
/// (`secp_secret_key_valid`), as its length check and
/// `secp256k1_ec_seckey_verify` decide.
#[verifier::external_body]
pub(crate) fn secp_parse_secret_key(bytes: &[u8]) -> (r: bool)
    ensures
        r == secp_secret_key_valid(bytes@),
{
    secp256k1::SecretKey::from_slice(bytes).is_ok()
}

/// secp256k1's `SecretKey::public_key`, serialized compressed with
/// `PublicKey::serialize`: claims that the result is a function of the secret,
/// named `secp_public_key_of`, and that `PublicKey::from_slice` accepts it back.
#[verifier::external_body]
pub(crate) fn secp_derive_public_key(secret: &[u8; 32]) -> (r: [u8; 33])
    requires
        secp_secret_key_valid(secret@),
    ensures
        r@ == secp_public_key_of(secret@),
        secp_public_key_valid(r@),
{
    let sk = secp256k1::SecretKey::from_slice(secret).expect("a valid secret key");
    sk.public_key(&secp256k1::Secp256k1::signing_only()).serialize()
}

/// musig2's `PubNonce::from_bytes`: claims that it succeeds exactly on 66 bytes
/// whose halves secp256k1 parses as compressed points (`musig2_pub_nonce_valid`);
/// on failure it hands back the text of musig2's error, a function of the
/// bytes named `musig2_pub_nonce_error`.
#[verifier::external_body]
pub(crate) fn musig2_parse_pub_nonce(bytes: &[u8]) -> (r: Result<(), String>)
    ensures
        r is Ok <==> musig2_pub_nonce_valid(bytes@),
        r matches Err(m) ==> m@ == musig2_pub_nonce_error(bytes@),
{
    match <musig2::PubNonce as musig2::BinaryEncoding>::from_bytes(bytes) {
        Ok(_) => Ok(()),
        Err(err) => Err(format!("{err}")),
    }
}

/// The lower-case hexadecimal digit of `d < 16`.
pub open spec fn hex_digit(d: int) -> char {
    if d < 10 {
        (48 + d) as char
    } else {
        (87 + d) as char
    }
}

/// Lower-case hexadecimal, two digits a byte, most significant digit first.
pub open spec fn hex_lower(bytes: Seq<u8>) -> Seq<char>
    decreases bytes.len(),
{
    if bytes.len() == 0 {
        Seq::empty()
    } else {
        seq![hex_digit((bytes[0] / 16) as int), hex_digit((bytes[0] % 16) as int)] + hex_lower(bytes.drop_first())
    }
}

/// hex's `encode`: claims that it writes lower-case hexadecimal, as its
/// documentation says.
#[verifier::external_body]
pub(crate) fn hex_encode(bytes: &[u8]) -> (r: String)
    ensures
        r@ == hex_lower(bytes@),
{
    hex::encode(bytes)
}

/// Copies exactly 32 bytes into an array.
pub(crate) fn bytes32(s: &[u8]) -> (a: [u8; 32])
    requires
        s@.len() == 32,
    ensures
        a@ == s@,
{
    let mut a = [0u8; 32];
    let mut i: usize = 0;
    while i < 32
        invariant
            i <= 32,
            s@.len() == 32,
            forall|j: int| 0 <= j < i ==> a@[j] == s@[j],
        decreases 32 - i,
    {
        a[i] = s[i];
        i = i + 1;
    }
    assert(a@ =~= s@);
    a
}

/// Copies exactly 33 bytes into an array.
pub(crate) fn bytes33(s: &[u8]) -> (a: [u8; 33])
    requires
        s@.len() == 33,
    ensures
        a@ == s@,
{
    let mut a = [0u8; 33];
    let mut i: usize = 0;
    while i < 33
        invariant
            i <= 33,
            s@.len() == 33,
            forall|j: int| 0 <= j < i ==> a@[j] == s@[j],
        decreases 33 - i,
    {
        a[i] = s[i];
        i = i + 1;
    }
    assert(a@ =~= s@);
    a
}

/// Copies exactly 64 bytes into an array.
pub(crate) fn bytes64(s: &[u8]) -> (a: [u8; 64])
    requires
        s@.len() == 64,
    ensures
        a@ == s@,
{
    let mut a = [0u8; 64];
    let mut i: usize = 0;
    while i < 64
        invariant
            i <= 64,
            s@.len() == 64,
            forall|j: int| 0 <= j < i ==> a@[j] == s@[j],
        decreases 64 - i,
    {
        a[i] = s[i];
        i = i + 1;
    }
    assert(a@ =~= s@);
    a
}

/// Copies exactly 66 bytes into an array.
pub(crate) fn bytes66(s: &[u8]) -> (a: [u8; 66])
    requires
        s@.len() == 66,
    ensures
        a@ == s@,
{
    let mut a = [0u8; 66];
    let mut i: usize = 0;
    while i < 66
        invariant
            i <= 66,
            s@.len() == 66,
            forall|j: int| 0 <= j < i ==> a@[j] == s@[j],
        decreases 66 - i,
    {
        a[i] = s[i];
        i = i + 1;
    }
    assert(a@ =~= s@);
    a
}

/// A 32-byte hash.
#[derive(Clone, Copy, Debug, PartialEq, Eq, Hash)]
pub struct Hash256(pub [u8; 32]);

impl View for Hash256 {
    type V = Seq<u8>;

    open spec fn view(&self) -> Seq<u8> {
        self.0@
    }
}

impl Hash256 {
    /// The 32 bytes of the hash.
    pub fn as_bytes(&self) -> (r: &[u8; 32])
        ensures
            r@ == self@,
    {
        &self.0
    }

    /// The hash's bytes in lower-case hexadecimal, after `0x` when `alternate`
    /// (the `{:x}` and `{:#x}` formats).
    pub fn to_lower_hex(&self, alternate: bool) -> (r: String)
        ensures
            r@ == (if alternate {
                "0x"@
            } else {
                ""@
            }) + hex_lower(self@),
    {
        let digits = hex_encode(self.0.as_slice());
        let mut r = if alternate {
            "0x".to_owned()
        } else {
            "".to_owned()
        };
        r.append(digits.as_str());
        r
    }

    /// `Hash256(0x` and the hash's bytes in lower-case hexadecimal, then `)`
    /// (the `{}` and `{:?}` formats).
    pub fn to_display_string(&self) -> (r: String)
        ensures
            r@ == "Hash256(0x"@ + hex_lower(self@) + ")"@,
    {
        let digits = hex_encode(self.0.as_slice());
        let mut r = "Hash256(0x".to_owned();
        r.append(digits.as_str());
        r.append(")");
        r
    }
}

impl Default for Hash256 {
    /// The all-zero hash.
    fn default() -> (r: Self)
        ensures
            r@ == Seq::new(32, |i: int| 0u8),
    {
        let r = Hash256([0u8; 32]);
        assert(r@ =~= Seq::new(32, |i: int| 0u8));
        r
    }
}

impl From<[u8; 32]> for Hash256 {
    fn from(value: [u8; 32]) -> (r: Self) {
        Hash256(value)
    }
}

impl vstd::std_specs::convert::FromSpecImpl<[u8; 32]> for Hash256 {
    open spec fn obeys_from_spec() -> bool {
        true
    }

    open spec fn from_spec(value: [u8; 32]) -> Self {
        Hash256(value)
    }
}

/// A secp256k1 secret key, as its 32 bytes. It has no `Debug`, so that the
/// secret is not printed.
#[derive(Clone, Copy, PartialEq, Eq)]
pub struct Privkey(pub [u8; 32]);

impl View for Privkey {
    type V = Seq<u8>;

    open spec fn view(&self) -> Seq<u8> {
        self.0@
    }
}

impl Privkey {
    /// The key is one that secp256k1 accepts.
    pub open spec fn wf(&self) -> bool {
        secp_secret_key_valid(self@)
    }

    /// The secret key with these bytes; secp256k1 must accept them.
    pub fn from_slice(key: &[u8]) -> (r: Privkey)
        requires
            key@.len() == 32,
            secp_secret_key_valid(key@),
        ensures
            r@ == key@,
            r.wf(),
    {
        Privkey(bytes32(key))
    }

    /// The secret key with these bytes, if secp256k1 accepts them.
    pub fn try_from_slice(key: &[u8]) -> (r: Option<Privkey>)
        ensures
            match r {
                Some(k) => key@.len() == 32 && secp_secret_key_valid(key@) && k@ == key@,
                None => !(key@.len() == 32 && secp_secret_key_valid(key@)),
            },
    {
        if key.len() == 32 && secp_parse_secret_key(key) {
            Some(Privkey::from_slice(key))
        } else {
            None
        }
    }

    /// The compressed public key of this secret key.
    pub fn pubkey(&self) -> (r: Pubkey)
        requires
            self.wf(),
        ensures
            r@ == secp_public_key_of(self@),
            r.wf(),
    {
        Pubkey(secp_derive_public_key(&self.0))
    }

    /// The 32 bytes of the key.
    pub fn as_bytes(&self) -> (r: &[u8; 32])
        ensures
            r@ == self@,
    {
        &self.0
    }
}

/// A secp256k1 public key, as its 33-byte compressed serialization; keys are
/// ordered by that serialization, as secp256k1 orders them.
#[derive(Clone, Copy, Debug, PartialEq, Eq, PartialOrd, Ord, Hash)]
pub struct Pubkey(pub [u8; 33]);

impl View for Pubkey {
    type V = Seq<u8>;

    open spec fn view(&self) -> Seq<u8> {
        self.0@
    }
}

impl Pubkey {
    /// The bytes are a public key that secp256k1 accepts.
    pub open spec fn wf(&self) -> bool {
        secp_public_key_valid(self@)
    }

    /// The public key in these 33 bytes, if secp256k1 accepts them.
    pub fn from_slice(bytes: &[u8]) -> (r: Option<Pubkey>)
        ensures
            match r {
                Some(k) => bytes@.len() == 33 && secp_public_key_valid(bytes@) && k@ == bytes@,
                None => !(bytes@.len() == 33 && secp_public_key_valid(bytes@)),
            },
    {
        if bytes.len() == 33 && secp_parse_public_key(bytes) {
            Some(Pubkey(bytes33(bytes)))
        } else {
            None
        }
    }

    /// The 33 bytes of the key.
    pub fn serialize(&self) -> (r: [u8; 33])
        ensures
            r@ == self@,
    {
        self.0
    }
}

/// A compact (64-byte) ECDSA signature.
#[derive(Clone, Copy, Debug, PartialEq, Eq, Hash)]
pub struct Signature(pub [u8; 64]);

impl View for Signature {
    type V = Seq<u8>;

    open spec fn view(&self) -> Seq<u8> {
        self.0@
    }
}

impl Signature {
    /// The bytes are a signature that secp256k1 accepts.
    pub open spec fn wf(&self) -> bool {
        secp_compact_signature_valid(self@)
    }

    /// The signature in these 64 bytes, if secp256k1 accepts them.
    pub fn from_compact(bytes: &[u8]) -> (r: Option<Signature>)
        ensures
            match r {
                Some(s) => bytes@.len() == 64 && secp_compact_signature_valid(bytes@) && s@ == bytes@,
                None => !(bytes@.len() == 64 && secp_compact_signature_valid(bytes@)),
            },
    {
        if bytes.len() == 64 && secp_parse_compact_signature(bytes) {
            Some(Signature(bytes64(bytes)))
        } else {
            None
        }
    }

    /// The 64 bytes of the signature.
    pub fn serialize_compact(&self) -> (r: [u8; 64])
        ensures
            r@ == self@,
    {
        self.0
    }
}

/// A musig2 public nonce, as its 66 bytes (two compressed points).
#[derive(Clone, Copy, Debug, PartialEq, Eq)]
pub struct PubNonce(pub [u8; 66]);

impl View for PubNonce {
    type V = Seq<u8>;

    open spec fn view(&self) -> Seq<u8> {
        self.0@
    }
}

impl PubNonce {
    /// The bytes are a nonce that musig2 accepts.
    pub open spec fn wf(&self) -> bool {
        musig2_pub_nonce_valid(self@)
    }

    /// The nonce in these 66 bytes, or musig2's message when it refuses them.
    pub fn from_bytes(bytes: &[u8]) -> (r: Result<PubNonce, String>)
        ensures
            match r {
                Ok(n) => bytes@.len() == 66 && musig2_pub_nonce_valid(bytes@) && n@ == bytes@,
                Err(m) => !(bytes@.len() == 66 && musig2_pub_nonce_valid(bytes@)) && m@
                    == musig2_pub_nonce_error(bytes@),
            },
    {
        match musig2_parse_pub_nonce(bytes) {
            Ok(()) => Ok(PubNonce(bytes66(bytes))),
            Err(msg) => Err(msg),
        }
    }

    /// The 66 bytes of the nonce.
    pub fn to_bytes(&self) -> (r: [u8; 66])
        ensures
            r@ == self@,
    {
        self.0
    }
}

} // verus!
