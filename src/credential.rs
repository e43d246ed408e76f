//! The credential an issuer hands to a holder, and its commitment.

use crate::encoding::{lemma_field_encoding_len, append_bytes, string_to_bytes, field_encoding, sha256_digest, sha256_of};
use vstd::prelude::*;

verus! {

/// A credential: the issuer's identifier and three scalar-field elements
/// written in decimal (the holder's name, birth year and blinding randomness).
#[derive(Clone, Debug)]
pub struct Credential {
    pub issuer_id: [u8; 32],
    pub holder_name: String,
    pub holder_dob_year: String,
    pub randomness: String,
}

/// The bytes a credential's commitment is computed over:
/// `issuer_id ‖ encode(holder_name) ‖ encode(holder_dob_year) ‖ encode(randomness)`,
/// or `None` where one of the three texts encodes no field element.
pub open spec fn preimage_of(c: Credential) -> Option<Seq<u8>> {
    match (
        field_encoding(c.holder_name@),
        field_encoding(c.holder_dob_year@),
        field_encoding(c.randomness@),
    ) {
        (Some(n), Some(d), Some(r)) => Some(c.issuer_id@ + n + d + r),
        _ => None,
    }
}

/// The commitment of a credential: the SHA-256 digest of its preimage.
pub open spec fn commitment_of(c: Credential) -> Option<Seq<u8>> {
    match preimage_of(c) {
        Some(p) => Some(sha256_of(p)),
        None => None,
    }
}

/// Commitment is deterministic: any two digests that `to_sha256` may return
/// for one credential are equal.
pub proof fn lemma_commitment_deterministic(c: Credential, h1: Seq<u8>, h2: Seq<u8>)
    requires
        commitment_of(c) == Some(h1),
        commitment_of(c) == Some(h2),
    ensures
        h1 == h2,
{
}

/// The hashed bytes determine the credential up to encoding: two credentials
/// that differ in the issuer id, or in the field element that the name, the
/// birth year or the randomness denotes, hash different byte strings.
pub proof fn lemma_preimage_injective(a: Credential, b: Credential)
    requires
        preimage_of(a) is Some,
        preimage_of(a) == preimage_of(b),
    ensures
        a.issuer_id@ == b.issuer_id@,
        field_encoding(a.holder_name@) == field_encoding(b.holder_name@),
        field_encoding(a.holder_dob_year@) == field_encoding(b.holder_dob_year@),
        field_encoding(a.randomness@) == field_encoding(b.randomness@),
{
    lemma_field_encoding_len(a.holder_name@);
    lemma_field_encoding_len(a.holder_dob_year@);
    lemma_field_encoding_len(a.randomness@);
    lemma_field_encoding_len(b.holder_name@);
    lemma_field_encoding_len(b.holder_dob_year@);
    lemma_field_encoding_len(b.randomness@);
    let p = preimage_of(a)->0;
    let an = field_encoding(a.holder_name@)->0;
    let ad = field_encoding(a.holder_dob_year@)->0;
    let ar = field_encoding(a.randomness@)->0;
    let bn = field_encoding(b.holder_name@)->0;
    let bd = field_encoding(b.holder_dob_year@)->0;
    let br = field_encoding(b.randomness@)->0;
    assert(p == a.issuer_id@ + an + ad + ar);
    assert(p == b.issuer_id@ + bn + bd + br);
    assert(a.issuer_id@ =~= p.subrange(0, 32));
    assert(b.issuer_id@ =~= p.subrange(0, 32));
    assert(an =~= p.subrange(32, 64));
    assert(bn =~= p.subrange(32, 64));
    assert(ad =~= p.subrange(64, 96));
    assert(bd =~= p.subrange(64, 96));
    assert(ar =~= p.subrange(96, 128));
    assert(br =~= p.subrange(96, 128));
}

impl Credential {
    pub fn new(
        issuer_id: [u8; 32],
        holder_name: String,
        holder_dob_year: String,
        randomness: String,
    ) -> (r: Self)
        ensures
            r.issuer_id == issuer_id,
            r.holder_name == holder_name,
            r.holder_dob_year == holder_dob_year,
            r.randomness == randomness,
    {
        Credential { issuer_id, holder_name, holder_dob_year, randomness }
    }

    /// A field-by-field copy of the credential.
    pub fn duplicate(&self) -> (r: Self)
        ensures
            r == *self,
    {
        Credential {
            issuer_id: self.issuer_id,
            holder_name: self.holder_name.clone(),
            holder_dob_year: self.holder_dob_year.clone(),
            randomness: self.randomness.clone(),
        }
    }

    /// The bytes the commitment is computed over; `None` where a field does
    /// not encode a scalar-field element.
    pub fn preimage(&self) -> (r: Option<Vec<u8>>)
        ensures
            match r {
                Some(p) => preimage_of(*self) == Some(p@),
                None => preimage_of(*self) is None,
            },
    {
        let name = string_to_bytes(self.holder_name.as_str());
        let dob = string_to_bytes(self.holder_dob_year.as_str());
        let rand = string_to_bytes(self.randomness.as_str());
        match (name, dob, rand) {
            (Some(n), Some(d), Some(r)) => {
                let mut out: Vec<u8> = Vec::new();
                append_bytes(&mut out, &self.issuer_id);
                append_bytes(&mut out, &n);
                append_bytes(&mut out, &d);
                append_bytes(&mut out, &r);
                assert(out@ == Seq::<u8>::empty() + self.issuer_id@ + n@ + d@ + r@);
                assert(Seq::<u8>::empty() + self.issuer_id@ =~= self.issuer_id@);
                Some(out)
            },
            _ => None,
        }
    }

    /// The commitment: SHA-256 over the issuer id and the encoded name, birth
    /// year and randomness; `None` where a field does not encode a
    /// scalar-field element.
    pub fn to_sha256(&self) -> (r: Option<Vec<u8>>)
        ensures
            match r {
                Some(h) => commitment_of(*self) == Some(h@) && h@.len() == 32,
                None => commitment_of(*self) is None,
            },
    {
        match self.preimage() {
            Some(p) => Some(sha256_digest(&p)),
            None => None,
        }
    }
}

} // verus!
