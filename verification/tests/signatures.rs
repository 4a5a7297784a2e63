use k256_verify::{Error, RecoverableSignature, Signature, U256};

fn hv(s: &str) -> Vec<u8> {
    let s = s.as_bytes();
    assert!(s.len() % 2 == 0);
    let digit = |c: u8| (c as char).to_digit(16).unwrap() as u8;
    s.chunks(2).map(|p| digit(p[0]) * 16 + digit(p[1])).collect()
}

fn h32(s: &str) -> [u8; 32] {
    let mut out = [0u8; 32];
    out.copy_from_slice(&hv(s));
    out
}

fn u(s: &str) -> U256 {
    U256::from_be_bytes(&h32(s))
}

fn hex(x: &U256) -> String {
    x.to_be_bytes().iter().map(|b| format!("{:02x}", b)).collect()
}

const Q_X: &str = "779dd197a5df977ed2cf6cb31d82d43328b790dc6b3b7d4437a427bd5847dfcd";
const Q_Y: &str = "e94b724a555b6d017bb7607c3e3281daf5b1699d6ef4124975c9237b917d426f";
const M: &str = "4b688df40bcedbe641ddb16ff0a1842d9c67ea1c3bf63f3e0471baa664531d1a";
const R: &str = "241097efbf8b63bf145c8961dbdf10c310efbb3b2676bbc0f8b08505c9e2f795";
const S: &str = "021006b7838609339e8b415a7f9acb1b661828131aef1ecbc7955dfb01f3ca0e";

fn sig_bytes() -> Vec<u8> {
    let mut out = hv(R);
    out.extend_from_slice(&hv(S));
    out
}

#[test]
fn signature_is_r_followed_by_s() {
    let sig = Signature::from_bytes(&sig_bytes()).unwrap();
    assert_eq!(hex(&sig.r()), R);
    assert_eq!(hex(&sig.s()), S);
    assert_eq!(sig.to_bytes(), sig_bytes());
    let sig = Signature::from_scalars(&h32(R), &h32(S));
    assert_eq!(sig.to_bytes(), sig_bytes());
}

#[test]
fn signature_of_another_length_is_a_decoding_error() {
    for len in [0usize, 1, 32, 63, 65, 66, 128] {
        let bytes = vec![1u8; len];
        assert_eq!(Signature::from_bytes(&bytes).err(), Some(Error::Decoding));
    }
}

#[test]
fn any_pair_of_integers_can_be_held() {
    let sig = Signature::from_bytes(&[0u8; 64]).unwrap();
    assert!(sig.r().is_zero() && sig.s().is_zero());
    let sig = Signature::from_bytes(&[0xff; 64]).unwrap();
    assert_eq!(hex(&sig.r()), "f".repeat(64));
    assert_eq!(hex(&sig.s()), "f".repeat(64));
    assert_eq!(sig.to_bytes(), vec![0xff; 64]);
}

#[test]
fn recoverable_signature_has_one_more_byte() {
    for id in [0u8, 1] {
        let mut bytes = sig_bytes();
        bytes.push(id);
        let sig = RecoverableSignature::from_bytes(&bytes).unwrap();
        assert_eq!(sig.recovery_id(), id);
        assert_eq!(sig.to_signature().to_bytes(), sig_bytes());
    }
}

#[test]
fn recovery_identifier_is_zero_or_one() {
    for id in [2u8, 3, 4, 27, 28, 0x80, 0xff] {
        let mut bytes = sig_bytes();
        bytes.push(id);
        assert_eq!(RecoverableSignature::from_bytes(&bytes).err(), Some(Error::Decoding));
        let plain = Signature::from_bytes(&sig_bytes()).unwrap();
        assert_eq!(RecoverableSignature::new(&plain, id).err(), Some(Error::Decoding));
    }
    let plain = Signature::from_bytes(&sig_bytes()).unwrap();
    assert_eq!(RecoverableSignature::new(&plain, 1).unwrap().recovery_id(), 1);
    assert_eq!(RecoverableSignature::new(&plain, 0).unwrap().recovery_id(), 0);
}

#[test]
fn recoverable_signature_of_another_length_is_a_decoding_error() {
    assert_eq!(RecoverableSignature::from_bytes(&sig_bytes()).err(), Some(Error::Decoding));
    assert_eq!(RecoverableSignature::from_bytes(&[]).err(), Some(Error::Decoding));
    let mut bytes = sig_bytes();
    bytes.push(0);
    bytes.push(0);
    assert_eq!(RecoverableSignature::from_bytes(&bytes).err(), Some(Error::Decoding));
}
