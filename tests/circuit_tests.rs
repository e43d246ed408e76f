use age_prover::circuit::{cmp_range_ok, le_less, AgeCircuit, CircuitError};
use age_prover::credential::Credential;
use age_prover::holder::{Holder, HolderError};
use age_prover::issuer::{Issuer, MAX_CREDENTIALS};
use age_prover::verification::{Verifier, VerifierError};

const CUTOFF_YEAR: &str = "2006";

fn le(n: u64) -> [u8; 32] {
    let mut b = [0u8; 32];
    b[..8].copy_from_slice(&n.to_le_bytes());
    b
}

/// An issuer holding credentials for birth years 2005, 2006, 2007.
fn setup_issuer() -> (Issuer, Vec<Credential>) {
    let mut issuer = Issuer::new("1").unwrap();
    let mut credentials = Vec::new();
    for i in 0..MAX_CREDENTIALS {
        let year = format!("{}", 2005 + i as u32);
        let cred = Credential::new(issuer.id, year.clone(), year, format!("{}", 1000 + i));
        credentials.push(cred);
    }
    for cred in &credentials {
        issuer.issue_credential(cred).unwrap();
    }
    (issuer, credentials)
}

fn circuit_for(cred: &Credential, issuer: &Issuer) -> AgeCircuit {
    let holder = Holder::new("2005", cred.clone()).unwrap();
    holder.circuit(CUTOFF_YEAR.to_string(), issuer.hashed_credentials().unwrap())
}

#[test]
fn eligible_member_is_satisfied() {
    let (issuer, creds) = setup_issuer();
    assert_eq!(circuit_for(&creds[0], &issuer).is_satisfied(), Ok(true));
}

#[test]
fn member_born_after_cutoff_is_not_satisfied() {
    let (issuer, creds) = setup_issuer();
    assert_eq!(circuit_for(&creds[2], &issuer).is_satisfied(), Ok(false));
}

#[test]
fn member_born_in_cutoff_year_is_not_satisfied() {
    let (issuer, creds) = setup_issuer();
    assert_eq!(circuit_for(&creds[1], &issuer).is_satisfied(), Ok(false));
}

#[test]
fn non_member_is_not_satisfied_but_has_a_witness() {
    let (issuer, _) = setup_issuer();
    let stranger = Credential::new(issuer.id, "1990".to_string(), "1990".to_string(), "5".to_string());
    let circuit = circuit_for(&stranger, &issuer);
    assert_eq!(circuit.is_satisfied(), Ok(false));
    assert!(Holder::proving_witness(&circuit).is_ok());
}

#[test]
fn witness_holds_encodings_and_slots() {
    let (issuer, creds) = setup_issuer();
    let circuit = circuit_for(&creds[0], &issuer);
    let w = circuit.witness().unwrap();
    assert_eq!(w.cutoff_year, le(2006));
    assert_eq!(w.holder_dob_year, le(2005));
    assert_eq!(w.preimage, creds[0].preimage().unwrap());
    assert_eq!(w.commitments, issuer.hashed_credentials().unwrap());
    let at = age_prover::circuit::DOB_BYTES_START;
    assert_eq!(&w.preimage[at..at + 32], &w.holder_dob_year);
}

#[test]
fn wrong_slot_count_is_a_shape_mismatch() {
    let (issuer, creds) = setup_issuer();
    let mut slots = issuer.hashed_credentials().unwrap();
    slots.pop();
    let circuit = AgeCircuit::new(CUTOFF_YEAR.to_string(), slots, creds[0].clone());
    assert_eq!(circuit.witness().err(), Some(CircuitError::ShapeMismatch));
    assert_eq!(
        Holder::proving_witness(&circuit).err(),
        Some(HolderError::InvalidCircuit(CircuitError::ShapeMismatch))
    );
}

#[test]
fn short_slot_is_a_shape_mismatch() {
    let (issuer, creds) = setup_issuer();
    let mut slots = issuer.hashed_credentials().unwrap();
    slots[1].pop();
    let circuit = AgeCircuit::new(CUTOFF_YEAR.to_string(), slots, creds[0].clone());
    assert_eq!(circuit.is_satisfied(), Err(CircuitError::ShapeMismatch));
}

#[test]
fn malformed_cutoff_is_invalid_encoding() {
    let (issuer, creds) = setup_issuer();
    let circuit = AgeCircuit::new("year".to_string(), issuer.hashed_credentials().unwrap(), creds[0].clone());
    assert_eq!(circuit.witness().err(), Some(CircuitError::InvalidEncoding));
}

#[test]
fn non_canonical_cutoff_is_invalid_encoding() {
    let (issuer, creds) = setup_issuer();
    for text in ["02006", "+2006", "2_006", "-2006"] {
        let circuit = AgeCircuit::new(text.to_string(), issuer.hashed_credentials().unwrap(), creds[0].clone());
        assert_eq!(circuit.witness().err(), Some(CircuitError::InvalidEncoding));
    }
}

#[test]
fn huge_cutoff_is_out_of_range() {
    let (issuer, creds) = setup_issuer();
    // 2^248
    let big = "452312848583266388373324160190187140051835877600158453279131187530910662656";
    let circuit = AgeCircuit::new(big.to_string(), issuer.hashed_credentials().unwrap(), creds[0].clone());
    assert_eq!(circuit.is_satisfied(), Err(CircuitError::OutOfRange));
}

#[test]
fn little_endian_comparison() {
    assert!(le_less(&le(2005), &le(2006)));
    assert!(!le_less(&le(2006), &le(2006)));
    assert!(!le_less(&le(2007), &le(2006)));
    assert!(le_less(&le(255), &le(256)));
    let mut top = [0u8; 32];
    top[31] = 1;
    assert!(le_less(&le(u64::MAX), &top));
    assert!(!cmp_range_ok(&top));
    assert!(cmp_range_ok(&le(u64::MAX)));
}

#[test]
fn setup_circuit_is_all_zero() {
    let verifier = Verifier::new("2").unwrap();
    let c = verifier.setup_circuit();
    assert_eq!(c.dob_cutoff_year, "0");
    assert_eq!(c.hashed_credentials, vec![vec![0u8; 32]; MAX_CREDENTIALS]);
    assert_eq!(c.credential.issuer_id, [0u8; 32]);
    assert_eq!(c.credential.holder_name, "0");
    assert_eq!(c.credential.holder_dob_year, "0");
    assert_eq!(c.credential.randomness, "0");
    let w = c.witness().unwrap();
    assert_eq!(w.preimage, vec![0u8; 128]);
}

#[test]
fn setup_and_instances_share_one_shape() {
    let (issuer, creds) = setup_issuer();
    let setup = Verifier::new("2").unwrap().setup_circuit().witness().unwrap();
    for c in &creds {
        let w = circuit_for(c, &issuer).witness().unwrap();
        assert_eq!(w.commitments.len(), setup.commitments.len());
        assert_eq!(w.preimage.len(), setup.preimage.len());
    }
}

#[test]
fn identifiers_must_encode() {
    assert!(matches!(Verifier::new("v"), Err(VerifierError::InvalidEncoding)));
    let (_, creds) = setup_issuer();
    assert!(matches!(Holder::new("h", creds[0].clone()), Err(HolderError::InvalidEncoding)));
    let h = Holder::new("2005", creds[0].clone()).unwrap();
    assert_eq!(h.id, le(2005));
}
