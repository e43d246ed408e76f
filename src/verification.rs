//! The verifier: runs the one-time structural setup for the circuit shape.
//!
//! The setup instance carries placeholder (all-zero) values only: the keys it
//! yields depend on the circuit's shape, never on witness values, so one key
//! pair serves every instance of that shape. The setup randomness is a
//! trapdoor; disposing of it is the caller's responsibility.

use crate::circuit::AgeCircuit;
use crate::credential::Credential;
use crate::encoding::{field_encoding, string_to_bytes};
use crate::issuer::MAX_CREDENTIALS;
use vstd::prelude::*;

verus! {

#[derive(Clone, Copy, Debug, PartialEq, Eq, Structural)]
pub enum VerifierError {
    /// Key generation failed, or the setup instance has no witness.
    SetupFailed,
    /// The identifier does not encode a scalar-field element.
    InvalidEncoding,
}

pub struct Verifier {
    pub id: [u8; 32],
}

/// The circuit instance a setup runs on: the cutoff year and every credential
/// field are `"0"`, the issuer id and all `MAX_CREDENTIALS` slots are zero bytes.
pub open spec fn is_setup_circuit(c: AgeCircuit) -> bool {
    &&& c.dob_cutoff_year@ == seq!['0']
    &&& c.hashed_credentials@.len() == MAX_CREDENTIALS
    &&& forall|i: int|
        0 <= i < MAX_CREDENTIALS ==> (#[trigger] c.hashed_credentials@[i])@ == Seq::new(
            32,
            |j: int| 0u8,
        )
    &&& c.credential.issuer_id@ == Seq::new(32, |j: int| 0u8)
    &&& c.credential.holder_name@ == seq!['0']
    &&& c.credential.holder_dob_year@ == seq!['0']
    &&& c.credential.randomness@ == seq!['0']
}

fn zero_text() -> (r: String)
    ensures
        r@ == seq!['0'],
{
    let s = "0";
    proof {
        reveal_strlit("0");
    }
    s.to_owned()
}

impl Verifier {
    /// A verifier; the identifier is the encoding of `id` as a scalar-field
    /// element.
    pub fn new(id: &str) -> (r: Result<Self, VerifierError>)
        ensures
            match r {
                Ok(v) => field_encoding(id@) == Some(v.id@),
                Err(e) => e == VerifierError::InvalidEncoding && field_encoding(id@) is None,
            },
    {
        match string_to_bytes(id) {
            Some(b) => Ok(Verifier { id: b }),
            None => Err(VerifierError::InvalidEncoding),
        }
    }

    /// The placeholder instance of the circuit shape that key generation runs on.
    pub fn setup_circuit(&self) -> (r: AgeCircuit)
        ensures
            is_setup_circuit(r),
    {
        let mut slots: Vec<Vec<u8>> = Vec::new();
        let mut i: usize = 0;
        while i < MAX_CREDENTIALS
            invariant
                0 <= i <= MAX_CREDENTIALS,
                slots@.len() == i,
                forall|k: int| 0 <= k < i ==> (#[trigger] slots@[k])@ == Seq::new(32, |j: int| 0u8),
            decreases MAX_CREDENTIALS - i,
        {
            let z: Vec<u8> = vec![0u8; 32];
            assert(z@ =~= Seq::new(32, |j: int| 0u8));
            slots.push(z);
            i = i + 1;
        }
        let id: [u8; 32] = [0u8; 32];
        assert(id@ =~= Seq::new(32, |j: int| 0u8));
        let credential = Credential::new(id, zero_text(), zero_text(), zero_text());
        AgeCircuit::new(zero_text(), slots, credential)
    }
}

} // verus!
