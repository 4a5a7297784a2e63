use k256_verify::{EncodedPoint, Error, Scalar, Signature, VerifyKey, U256};

fn hv(s: &str) -> Vec<u8> {
    let s = s.as_bytes();
    assert!(s.len() % 2 == 0);
    let digit = |c: u8| (c as char).to_digit(16).unwrap() as u8;
    s.chunks(2).map(|p| digit(p[0]) * 16 + digit(p[1])).collect()
}

fn h32(s: &str) -> [u8; 32] {
    let mut out = [0u8; 32];
    out.copy_from_slice(&hv(s));
    out
}

const Q_X: &str = "779dd197a5df977ed2cf6cb31d82d43328b790dc6b3b7d4437a427bd5847dfcd";
const Q_Y: &str = "e94b724a555b6d017bb7607c3e3281daf5b1699d6ef4124975c9237b917d426f";
const M: &str = "4b688df40bcedbe641ddb16ff0a1842d9c67ea1c3bf63f3e0471baa664531d1a";
const R: &str = "241097efbf8b63bf145c8961dbdf10c310efbb3b2676bbc0f8b08505c9e2f795";
const S: &str = "021006b7838609339e8b415a7f9acb1b661828131aef1ecbc7955dfb01f3ca0e";

fn vector_key() -> VerifyKey {
    let point = EncodedPoint::Uncompressed {
        x: U256::from_be_bytes(&h32(Q_X)),
        y: U256::from_be_bytes(&h32(Q_Y)),
    };
    VerifyKey::from_encoded_point(&point).unwrap()
}

#[test]
fn ecdsa_verify_success() {
    let q = vector_key().to_affine();
    let z = Scalar::from_bytes(&h32(M)).expect("invalid vector.m");
    let sig = Signature::from_scalars(&h32(R), &h32(S));
    let result = q.verify_prehashed(&z, &sig);
    assert!(result.is_ok());
}

#[test]
fn ecdsa_verify_invalid_s() {
    let q = vector_key().to_affine();
    let z = Scalar::from_bytes(&h32(M)).expect("invalid vector.m");
    let mut s_tweaked = h32(S);
    s_tweaked[0] ^= 1;
    let sig = Signature::from_scalars(&h32(R), &s_tweaked);
    let result = q.verify_prehashed(&z, &sig);
    assert!(result.is_err());
    assert_eq!(result, Err(Error::InvalidSignature));
}

#[test]
fn literal_key_and_signature_bytes_are_accepted() {
    let mut key_bytes = vec![4u8];
    key_bytes.extend_from_slice(&hv(Q_X));
    key_bytes.extend_from_slice(&hv(Q_Y));
    let key = VerifyKey::new(&key_bytes).unwrap();
    let mut sig_bytes = hv(R);
    sig_bytes.extend_from_slice(&hv(S));
    let sig = Signature::from_bytes(&sig_bytes).unwrap();
    assert_eq!(key.verify_digest(&h32(M), &sig), Ok(()));
}

#[test]
fn compressed_key_gives_the_same_answer() {
    let mut key_bytes = vec![3u8];
    key_bytes.extend_from_slice(&hv(Q_X));
    let key = VerifyKey::new(&key_bytes).unwrap();
    assert_eq!(key.to_affine().y().to_be_bytes(), hv(Q_Y));
    let sig = Signature::from_scalars(&h32(R), &h32(S));
    assert_eq!(key.verify_digest(&h32(M), &sig), Ok(()));
}

#[test]
fn key_that_differs_in_one_bit_rejects() {
    let sig = Signature::from_scalars(&h32(R), &h32(S));
    // The parity bit of the tag: the negated point.
    let mut key_bytes = vec![2u8];
    key_bytes.extend_from_slice(&hv(Q_X));
    let key = VerifyKey::new(&key_bytes).unwrap();
    assert_eq!(key.verify_digest(&h32(M), &sig), Err(Error::InvalidSignature));
    // The lowest bit of the abscissa: another point of the curve.
    let mut key_bytes = vec![3u8];
    key_bytes.extend_from_slice(&hv(Q_X));
    key_bytes[32] ^= 1;
    let key = VerifyKey::new(&key_bytes).unwrap();
    assert_eq!(key.verify_digest(&h32(M), &sig), Err(Error::InvalidSignature));
}

#[test]
fn uncompressed_key_that_differs_in_one_bit_does_not_decode() {
    let mut key_bytes = vec![4u8];
    key_bytes.extend_from_slice(&hv(Q_X));
    key_bytes.extend_from_slice(&hv(Q_Y));
    key_bytes[32] ^= 1;
    assert_eq!(VerifyKey::new(&key_bytes).err(), Some(Error::Decoding));
    key_bytes[32] ^= 1;
    key_bytes[64] ^= 0x80;
    assert_eq!(VerifyKey::new(&key_bytes).err(), Some(Error::Decoding));
}

#[test]
fn verify_hashes_the_message_with_sha256() {
    let mut key_bytes = vec![2u8];
    key_bytes.extend_from_slice(&hv(
        "79be667ef9dcbbac55a06295ce870b07029bfcdb2dce28d959f2815b16f81798",
    ));
    let key = VerifyKey::new(&key_bytes).unwrap();
    let sig = Signature::from_scalars(
        &h32("934b1ea10a4b3c1757e2b0c017d0b6143ce3c9a7e6a4a49860d7a6ab210ee3d8"),
        &h32("2442ce9d2b916064108014783e923ec36b49743e2ffa1c4496f01a512aafd9e5"),
    );
    assert_eq!(key.verify(b"Satoshi Nakamoto", &sig), Ok(()));
    assert_eq!(key.verify(b"Satoshi Nakamotp", &sig), Err(Error::InvalidSignature));
    // The digest of the message, handed over finished, gives the same answer.
    let digest = h32("a0dc65ffca799873cbea0ac274015b9526505daaaed385155425f7337704883e");
    assert_eq!(key.verify_digest(&digest, &sig), Ok(()));
}

#[test]
fn verify_agrees_with_verify_digest_on_known_digests() {
    let mut key_bytes = vec![4u8];
    key_bytes.extend_from_slice(&hv(
        "f973a0b87062c389d125d8199e803b832b6ac6bf7867a4f6cd87506060fc4c58",
    ));
    key_bytes.extend_from_slice(&hv(
        "4b4a0a3f26c988c54c236b224c48bb605b265949e65c098ecd87a581ca10e25d",
    ));
    let key = VerifyKey::new(&key_bytes).unwrap();
    let sig = Signature::from_scalars(
        &h32("0fd109be4a9e07d64737926c7e2d8d7afa63ec5991d126b8abe7919d3c62a7be"),
        &h32("12d64c5ec10467485d2551768feb5d6138cbdcb99422633270f28e7239f74c81"),
    );
    assert_eq!(key.verify(b"hello world", &sig), Ok(()));
    let digest = h32("b94d27b9934d3e08a52e52d7da7dabfac484efe37a5380ee9088f7ace2efcde9");
    assert_eq!(key.verify_digest(&digest, &sig), Ok(()));
    // The bytes of the message are not themselves the digest.
    let mut padded = [0u8; 32];
    padded[21..].copy_from_slice(b"hello world");
    assert_eq!(key.verify_digest(&padded, &sig), Err(Error::InvalidSignature));
}

#[test]
fn empty_message_under_the_largest_private_key() {
    let mut key_bytes = vec![3u8];
    key_bytes.extend_from_slice(&hv(
        "79be667ef9dcbbac55a06295ce870b07029bfcdb2dce28d959f2815b16f81798",
    ));
    let key = VerifyKey::new(&key_bytes).unwrap();
    let sig = Signature::from_scalars(
        &h32("c6047f9441ed7d6d3045406e95c07cd85c778e4b8cef3ca7abac09b95c709ee5"),
        &h32("0ed622572b874f53b55b5a2d01d79e25e59b59cc6bd62b527c74c7b10df10cb8"),
    );
    assert_eq!(key.verify(b"", &sig), Ok(()));
    assert_eq!(key.verify(b"\0", &sig), Err(Error::InvalidSignature));
}
