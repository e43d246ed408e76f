//! The holder: owns one credential and builds eligibility-circuit instances
//! from it.
//!
//! Proving does not test whether an instance is eligible: an ineligible or
//! non-member credential still yields a proof, and the verifier rejects it.
//! What proving does refuse, before any constraint is built, is an instance
//! whose witness cannot be built (see `AgeCircuit::witness`).

use crate::circuit::{build_error, is_witness_of, AgeCircuit, CircuitError, CircuitWitness};
use crate::credential::Credential;
use crate::encoding::{field_encoding, string_to_bytes};
use vstd::prelude::*;

verus! {

#[derive(Clone, Copy, Debug, PartialEq, Eq, Structural)]
pub enum HolderError {
    /// The proving backend failed.
    ProveFailed,
    /// The instance's witness cannot be built.
    InvalidCircuit(CircuitError),
    /// The identifier does not encode a scalar-field element.
    InvalidEncoding,
}

pub struct Holder {
    pub id: [u8; 32],
    pub credentials: Credential,
}

impl Holder {
    /// A holder of `cred`; the identifier is the encoding of `id` as a
    /// scalar-field element.
    pub fn new(id: &str, cred: Credential) -> (r: Result<Self, HolderError>)
        ensures
            match r {
                Ok(h) => field_encoding(id@) == Some(h.id@) && h.credentials == cred,
                Err(e) => e == HolderError::InvalidEncoding && field_encoding(id@) is None,
            },
    {
        match string_to_bytes(id) {
            Some(b) => Ok(Holder { id: b, credentials: cred }),
            None => Err(HolderError::InvalidEncoding),
        }
    }

    /// The circuit instance proving that this holder's credential is among
    /// `commitments` and that its birth year is below `cutoff_year`.
    pub fn circuit(&self, cutoff_year: String, commitments: Vec<Vec<u8>>) -> (r: AgeCircuit)
        ensures
            r.dob_cutoff_year == cutoff_year,
            r.hashed_credentials == commitments,
            r.credential == self.credentials,
    {
        AgeCircuit::new(cutoff_year, commitments, self.credentials.duplicate())
    }

    /// What the prover is handed for `circuit`: its witness, or the reason
    /// none can be built.
    pub fn proving_witness(circuit: &AgeCircuit) -> (r: Result<CircuitWitness, HolderError>)
        ensures
            match r {
                Ok(w) => build_error(*circuit) is None && is_witness_of(w, *circuit),
                Err(e) => build_error(*circuit) is Some && e == HolderError::InvalidCircuit(
                    build_error(*circuit)->0,
                ),
            },
    {
        match circuit.witness() {
            Ok(w) => Ok(w),
            Err(e) => Err(HolderError::InvalidCircuit(e)),
        }
    }
}

} // verus!
