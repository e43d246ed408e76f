use age_prover::credential::Credential;
use age_prover::issuer::{Issuer, IssuerError, MAX_CREDENTIALS};

fn cred(issuer: &Issuer, year: u32, rand: &str) -> Credential {
    Credential::new(issuer.id, year.to_string(), year.to_string(), rand.to_string())
}

#[test]
fn issuer_id_is_encoded() {
    let issuer = Issuer::new("1").unwrap();
    let mut expected = [0u8; 32];
    expected[0] = 1;
    assert_eq!(issuer.id, expected);
    assert_eq!(issuer.identifier_bytes(), expected);
    assert!(matches!(Issuer::new("x"), Err(IssuerError::InvalidEncoding)));
}

#[test]
fn issuing_up_to_capacity_succeeds_then_fails() {
    let mut issuer = Issuer::new("1").unwrap();
    for i in 0..MAX_CREDENTIALS {
        let c = cred(&issuer, 2005 + i as u32, "7");
        assert_eq!(issuer.issue_credential(&c), Ok(()));
    }
    let before = issuer.hashed_credentials().unwrap();
    let extra = cred(&issuer, 1990, "8");
    assert_eq!(
        issuer.issue_credential(&extra),
        Err(IssuerError::MaxCredentialsReached)
    );
    assert_eq!(issuer.hashed_credentials().unwrap(), before);
    assert_eq!(issuer.credentials().unwrap().len(), MAX_CREDENTIALS);
}

#[test]
fn partial_registry_is_incomplete() {
    let mut issuer = Issuer::new("1").unwrap();
    assert!(matches!(issuer.credentials(), Err(IssuerError::IncompleteList)));
    assert!(matches!(issuer.hashed_credentials(), Err(IssuerError::IncompleteList)));
    for i in 0..MAX_CREDENTIALS - 1 {
        let c = cred(&issuer, 2005 + i as u32, "7");
        issuer.issue_credential(&c).unwrap();
        assert!(matches!(issuer.credentials(), Err(IssuerError::IncompleteList)));
        assert!(matches!(issuer.hashed_credentials(), Err(IssuerError::IncompleteList)));
    }
}

#[test]
fn full_registry_lists_in_issuance_order() {
    let mut issuer = Issuer::new("1").unwrap();
    let creds: Vec<Credential> = (0..MAX_CREDENTIALS)
        .map(|i| cred(&issuer, 2005 + i as u32, "99"))
        .collect();
    for c in &creds {
        issuer.issue_credential(c).unwrap();
    }
    let listed = issuer.credentials().unwrap();
    let hashes = issuer.hashed_credentials().unwrap();
    assert_eq!(listed.len(), MAX_CREDENTIALS);
    assert_eq!(hashes.len(), MAX_CREDENTIALS);
    for i in 0..MAX_CREDENTIALS {
        assert_eq!(listed[i].holder_dob_year, creds[i].holder_dob_year);
        assert_eq!(hashes[i], creds[i].to_sha256().unwrap());
    }
}

#[test]
fn malformed_credential_is_refused_without_change() {
    let mut issuer = Issuer::new("1").unwrap();
    let bad = Credential::new(issuer.id, "n".to_string(), "2005".to_string(), "1".to_string());
    assert_eq!(issuer.issue_credential(&bad), Err(IssuerError::InvalidEncoding));
    for i in 0..MAX_CREDENTIALS {
        let c = cred(&issuer, 2005 + i as u32, "7");
        assert_eq!(issuer.issue_credential(&c), Ok(()));
    }
    assert_eq!(issuer.credentials().unwrap()[0].holder_dob_year, "2005");
}
