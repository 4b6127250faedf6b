use fiber_types::{Hash256, Privkey, PubNonce, Pubkey, Signature};

#[test]
fn test_serde_public_key() {
    let sk = Privkey::from_slice(&[42; 32]);
    let public_key = sk.pubkey();
    let pk = secp256k1::PublicKey::from_slice(&public_key.serialize()).unwrap();
    let pk_str = serde_json::to_string(&pk).unwrap();
    assert_eq!(
        "\"035be5e9478209674a96e60f1f037f6176540fd001fa1d64694770c56a7709c42c\"",
        &pk_str
    );
    let parsed: secp256k1::PublicKey = serde_json::from_str(&pk_str).unwrap();
    assert_eq!(Pubkey(parsed.serialize()), public_key);
}

#[test]
fn pubkey_of_secret_matches_secp256k1() {
    let key = [7u8; 32];
    let ours = Privkey::from_slice(&key).pubkey();
    let secp = secp256k1::Secp256k1::new();
    let theirs = secp256k1::SecretKey::from_slice(&key).unwrap().public_key(&secp);
    assert_eq!(ours.serialize(), theirs.serialize());
    assert_ne!(&ours.serialize()[1..], &key[..]);
}

#[test]
fn privkey_rejects_zero_and_order() {
    assert!(Privkey::try_from_slice(&[0u8; 32]).is_none());
    assert!(Privkey::try_from_slice(&[0xffu8; 32]).is_none());
    assert!(Privkey::try_from_slice(&[1u8; 31]).is_none());
    let k = Privkey::try_from_slice(&[1u8; 32]).unwrap();
    assert_eq!(k.as_bytes(), &[1u8; 32]);
}

#[test]
fn pubkey_from_slice_checks_the_point() {
    let pk = Privkey::from_slice(&[3u8; 32]).pubkey();
    assert_eq!(Pubkey::from_slice(&pk.serialize()), Some(pk));
    assert_eq!(Pubkey::from_slice(&[0u8; 33]), None);
    assert_eq!(Pubkey::from_slice(&pk.serialize()[..32]), None);
}

#[test]
fn signature_from_compact_checks_the_scalars() {
    let mut ok = [0u8; 64];
    ok[31] = 1;
    ok[63] = 1;
    assert_eq!(Signature::from_compact(&ok).map(|s| s.serialize_compact()), Some(ok));
    assert!(Signature::from_compact(&[0xffu8; 64]).is_none());
    assert!(Signature::from_compact(&ok[..63]).is_none());
}

#[test]
fn pub_nonce_needs_two_points() {
    let a = Privkey::from_slice(&[5u8; 32]).pubkey().serialize();
    let b = Privkey::from_slice(&[6u8; 32]).pubkey().serialize();
    let mut bytes = [0u8; 66];
    bytes[..33].copy_from_slice(&a);
    bytes[33..].copy_from_slice(&b);
    let nonce = PubNonce::from_bytes(&bytes).unwrap();
    assert_eq!(nonce.to_bytes(), bytes);
    let mut bad = bytes;
    bad[0] = 0x07;
    let expected = format!(
        "{}",
        <musig2::PubNonce as musig2::BinaryEncoding>::from_bytes(&bad).unwrap_err()
    );
    assert_eq!(PubNonce::from_bytes(&bad), Err(expected));
    assert!(PubNonce::from_bytes(&bytes[..65]).is_err());
}

#[test]
fn hash256_formats() {
    let mut raw = [0u8; 32];
    raw[0] = 0xab;
    raw[31] = 0x01;
    let h = Hash256::from(raw);
    let hex = format!("ab{}01", "00".repeat(30));
    assert_eq!(h.to_lower_hex(false), hex);
    assert_eq!(h.to_lower_hex(true), format!("0x{}", hex));
    assert_eq!(h.to_display_string(), format!("Hash256(0x{})", hex));
    assert_eq!(h.as_bytes(), &raw);
}

#[test]
fn hash256_default_is_zero() {
    let h = Hash256::default();
    assert_eq!(h.as_bytes(), &[0u8; 32]);
    assert_eq!(h.to_lower_hex(false), "0".repeat(64));
}

#[test]
fn pubkeys_order_as_secp256k1_orders_them() {
    let keys: Vec<Pubkey> = (1u8..8).map(|i| Privkey::from_slice(&[i; 32]).pubkey()).collect();
    for a in &keys {
        for b in &keys {
            let pa = secp256k1::PublicKey::from_slice(&a.serialize()).unwrap();
            let pb = secp256k1::PublicKey::from_slice(&b.serialize()).unwrap();
            assert_eq!(a.cmp(b), pa.cmp(&pb));
        }
    }
}

const ORDER: [u8; 32] = [
    0xff, 0xff, 0xff, 0xff, 0xff, 0xff, 0xff, 0xff, 0xff, 0xff, 0xff, 0xff, 0xff, 0xff, 0xff, 0xfe,
    0xba, 0xae, 0xdc, 0xe6, 0xaf, 0x48, 0xa0, 0x3b, 0xbf, 0xd2, 0x5e, 0x8c, 0xd0, 0x36, 0x41, 0x41,
];

#[test]
fn secret_keys_lie_strictly_between_zero_and_the_order() {
    assert!(Privkey::try_from_slice(&ORDER).is_none());
    let mut below = ORDER;
    below[31] = 0x40;
    assert!(Privkey::try_from_slice(&below).is_some());
    let mut one = [0u8; 32];
    one[31] = 1;
    assert!(Privkey::try_from_slice(&one).is_some());
}

#[test]
fn compact_signature_scalars_lie_below_the_order() {
    assert!(Signature::from_compact(&[0u8; 64]).is_some());
    let mut sig = [0u8; 64];
    sig[32..].copy_from_slice(&ORDER);
    assert!(Signature::from_compact(&sig).is_none());
    sig[63] = 0x40;
    assert!(Signature::from_compact(&sig).is_some());
    sig[..32].copy_from_slice(&ORDER);
    assert!(Signature::from_compact(&sig).is_none());
}

#[test]
fn compressed_keys_need_a_tag_and_a_curve_x() {
    let pk = Privkey::from_slice(&[9u8; 32]).pubkey().serialize();
    let mut other_parity = pk;
    other_parity[0] ^= 1;
    assert!(Pubkey::from_slice(&other_parity).is_some());
    let mut uncompressed_tag = pk;
    uncompressed_tag[0] = 4;
    assert!(Pubkey::from_slice(&uncompressed_tag).is_none());
    let mut beyond_p = [0xffu8; 33];
    beyond_p[0] = 2;
    assert!(Pubkey::from_slice(&beyond_p).is_none());
}
