use k256_verify::{EncodedPoint, Error, VerifyKey, U256};

fn hv(s: &str) -> Vec<u8> {
    let s = s.as_bytes();
    assert!(s.len() % 2 == 0);
    let digit = |c: u8| (c as char).to_digit(16).unwrap() as u8;
    s.chunks(2).map(|p| digit(p[0]) * 16 + digit(p[1])).collect()
}

fn h32(s: &str) -> [u8; 32] {
    let mut out = [0u8; 32];
    out.copy_from_slice(&hv(s));
    out
}

fn u(s: &str) -> U256 {
    U256::from_be_bytes(&h32(s))
}

fn hex(x: &U256) -> String {
    x.to_be_bytes().iter().map(|b| format!("{:02x}", b)).collect()
}

const N: &str = "fffffffffffffffffffffffffffffffebaaedce6af48a03bbfd25e8cd0364141";
const P: &str = "fffffffffffffffffffffffffffffffffffffffffffffffffffffffefffffc2f";
const GX: &str = "79be667ef9dcbbac55a06295ce870b07029bfcdb2dce28d959f2815b16f81798";
const GY: &str = "483ada7726a3c4655da4fbfc0e1108a8fd17b448a68554199c47d08ffb10d4b8";
const NEG_GY: &str = "b7c52588d95c3b9aa25b0403f1eef75702e84bb7597aabe663b82f6f04ef2777";

fn key_bytes(tag: u8, parts: &[&str]) -> Vec<u8> {
    let mut out = vec![tag];
    for part in parts {
        out.extend_from_slice(&hv(part));
    }
    out
}

#[test]
fn uncompressed_key_decodes() {
    let key = VerifyKey::new(&key_bytes(4, &[GX, GY])).unwrap();
    assert_eq!(hex(&key.to_affine().x()), GX);
    assert_eq!(hex(&key.to_affine().y()), GY);
}

#[test]
fn compressed_key_decodes_with_either_parity() {
    let even = VerifyKey::new(&key_bytes(2, &[GX])).unwrap();
    assert_eq!(hex(&even.to_affine().y()), GY);
    let odd = VerifyKey::new(&key_bytes(3, &[GX])).unwrap();
    assert_eq!(hex(&odd.to_affine().y()), NEG_GY);
    assert_eq!(hex(&odd.to_affine().x()), GX);
}

#[test]
fn malformed_key_bytes_are_a_decoding_error() {
    let bad: Vec<Vec<u8>> = vec![
        vec![],
        vec![4],
        vec![2],
        key_bytes(0, &[GX]),
        key_bytes(1, &[GX]),
        key_bytes(5, &[GX, GY]),
        key_bytes(6, &[GX, GY]),
        key_bytes(4, &[GX]),
        key_bytes(2, &[GX, GY]),
        key_bytes(3, &[GX, GY]),
        key_bytes(4, &[GX, GY, "00"]),
        key_bytes(2, &[GX, "00"]),
        key_bytes(4, &[GX, GY])[..64].to_vec(),
        key_bytes(2, &[GX])[..32].to_vec(),
    ];
    for bytes in bad {
        assert_eq!(VerifyKey::new(&bytes).err(), Some(Error::Decoding));
        assert_eq!(EncodedPoint::from_bytes(&bytes).err(), Some(Error::Decoding));
    }
}

#[test]
fn well_framed_bytes_off_the_curve_are_a_decoding_error() {
    let zero = "0".repeat(64);
    let five = format!("{}5", "0".repeat(63));
    let bad = vec![
        key_bytes(4, &[GX, GX]),
        key_bytes(4, &[&zero, &zero]),
        key_bytes(4, &[GX, P]),
        key_bytes(4, &[P, GY]),
        key_bytes(2, &[&five]),
        key_bytes(3, &[&five]),
        key_bytes(2, &[P]),
        key_bytes(3, &["f".repeat(64).as_str()]),
    ];
    for bytes in bad {
        assert!(EncodedPoint::from_bytes(&bytes).is_ok());
        assert_eq!(VerifyKey::new(&bytes).err(), Some(Error::Decoding));
    }
}

#[test]
fn encoded_point_keeps_what_the_bytes_hold() {
    match EncodedPoint::from_bytes(&key_bytes(4, &[GX, GY])).unwrap() {
        EncodedPoint::Uncompressed { x, y } => {
            assert_eq!(hex(&x), GX);
            assert_eq!(hex(&y), GY);
        }
        EncodedPoint::Compressed { .. } => panic!("an uncompressed point was expected"),
    }
    match EncodedPoint::from_bytes(&key_bytes(2, &[GX])).unwrap() {
        EncodedPoint::Compressed { y_is_odd, x } => {
            assert!(!y_is_odd);
            assert_eq!(hex(&x), GX);
        }
        EncodedPoint::Uncompressed { .. } => panic!("a compressed point was expected"),
    }
    match EncodedPoint::from_bytes(&key_bytes(3, &[N])).unwrap() {
        EncodedPoint::Compressed { y_is_odd, x } => {
            assert!(y_is_odd);
            assert_eq!(hex(&x), N);
        }
        EncodedPoint::Uncompressed { .. } => panic!("a compressed point was expected"),
    }
}

#[test]
fn key_from_an_encoded_point() {
    let point = EncodedPoint::Compressed { y_is_odd: true, x: u(GX) };
    let key = VerifyKey::from_encoded_point(&point).unwrap();
    assert_eq!(hex(&key.to_affine().y()), NEG_GY);
    let point = EncodedPoint::Uncompressed { x: u(GX), y: u(NEG_GY) };
    let key = VerifyKey::from_encoded_point(&point).unwrap();
    assert_eq!(hex(&key.to_affine().y()), NEG_GY);
    let point = EncodedPoint::Uncompressed { x: u(GX), y: U256::from_u64(1) };
    assert_eq!(VerifyKey::from_encoded_point(&point).err(), Some(Error::Decoding));
    let point = EncodedPoint::Compressed { y_is_odd: false, x: U256::from_u64(5) };
    assert_eq!(VerifyKey::from_encoded_point(&point).err(), Some(Error::Decoding));
}
