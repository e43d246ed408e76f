use age_prover::credential::Credential;
use age_prover::encoding::string_to_bytes;

fn le(n: u64) -> [u8; 32] {
    let mut b = [0u8; 32];
    b[..8].copy_from_slice(&n.to_le_bytes());
    b
}

fn hex(bytes: &[u8]) -> String {
    bytes.iter().map(|b| format!("{:02x}", b)).collect()
}

fn sample() -> Credential {
    Credential::new(le(1), "2005".to_string(), "2005".to_string(), "12345".to_string())
}

#[test]
fn string_to_bytes_is_little_endian() {
    assert_eq!(string_to_bytes("2005"), Some(le(2005)));
    assert_eq!(string_to_bytes("0"), Some([0u8; 32]));
}

#[test]
fn string_to_bytes_refuses_values_at_or_above_the_field_order() {
    let r_plus_7 = "21888242871839275222246405745257275088548364400416034343698204186575808495624";
    assert_eq!(string_to_bytes(r_plus_7), None);
    let r = "21888242871839275222246405745257275088548364400416034343698204186575808495617";
    assert_eq!(string_to_bytes(r), None);
}

#[test]
fn string_to_bytes_accepts_the_largest_element() {
    let r_minus_1 = "21888242871839275222246405745257275088548364400416034343698204186575808495616";
    let b = string_to_bytes(r_minus_1).unwrap();
    assert_eq!(b[0], 0x00);
    assert_eq!(b[31], 0x30);
}

#[test]
fn string_to_bytes_refuses_non_canonical_text() {
    assert_eq!(string_to_bytes("-1"), None);
    assert_eq!(string_to_bytes("+5"), None);
    assert_eq!(string_to_bytes("1_000"), None);
    assert_eq!(string_to_bytes("05"), None);
    assert_eq!(string_to_bytes("00"), None);
    assert_eq!(string_to_bytes(" 5"), None);
}

#[test]
fn string_to_bytes_refuses_non_numbers() {
    assert_eq!(string_to_bytes("abc"), None);
    assert_eq!(string_to_bytes(""), None);
}

#[test]
fn commitment_has_expected_digest() {
    let h = sample().to_sha256().unwrap();
    assert_eq!(
        hex(&h),
        "76c577beb87649d40a46c256a69e63d53fdfa5f5caccd22e52b15645fccf8a7d"
    );
}

#[test]
fn commitment_is_deterministic() {
    let c = sample();
    assert_eq!(c.to_sha256(), c.to_sha256());
    assert_eq!(c.to_sha256(), c.clone().to_sha256());
}

#[test]
fn commitment_changes_with_each_field() {
    let base = sample().to_sha256().unwrap();
    let mut c = sample();
    c.issuer_id = le(2);
    assert_ne!(c.to_sha256().unwrap(), base);
    let mut c = sample();
    c.holder_name = "2006".to_string();
    assert_ne!(c.to_sha256().unwrap(), base);
    let mut c = sample();
    c.holder_dob_year = "2006".to_string();
    assert_ne!(c.to_sha256().unwrap(), base);
    let mut c = sample();
    c.randomness = "12346".to_string();
    assert_ne!(c.to_sha256().unwrap(), base);
}

#[test]
fn commitment_of_out_of_range_field_is_none() {
    let mut c = sample();
    c.holder_dob_year = "21888242871839275222246405745257275088548364400416034343698204186575808497622".to_string();
    assert_eq!(c.to_sha256(), None);
    let mut c = sample();
    c.holder_name = "-1".to_string();
    assert_eq!(c.to_sha256(), None);
}

#[test]
fn commitment_of_malformed_credential_is_none() {
    let mut c = sample();
    c.randomness = "not a number".to_string();
    assert_eq!(c.to_sha256(), None);
    assert!(c.preimage().is_none());
}

#[test]
fn preimage_is_the_four_encodings_in_order() {
    let p = sample().preimage().unwrap();
    assert_eq!(p.len(), 128);
    assert_eq!(&p[0..32], &le(1));
    assert_eq!(&p[32..64], &le(2005));
    assert_eq!(&p[64..96], &le(2005));
    assert_eq!(&p[96..128], &le(12345));
}
