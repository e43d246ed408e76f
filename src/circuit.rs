//! The eligibility circuit: its inputs, the plain witness that a constraint
//! system is built from, and the relation that the constraints enforce.
//!
//! The constraints say that the SHA-256 commitment recomputed from the
//! witnessed credential equals at least one of the `MAX_CREDENTIALS`
//! witnessed commitments (an OR over all slots), and that the credential's
//! birth year is strictly below the public cutoff year.
//!
//! The comparison gadget is only sound for operands at most `(p - 1) / 2`,
//! where `p` is the scalar field's order. This library admits to the circuit
//! only operands below `2^248`, which lie well inside that range; larger
//! values are refused before any constraint is built.

use crate::credential::{commitment_of, preimage_of, Credential};
use crate::encoding::{
    bytes_equal, copy_byte_strings, decimal_value, field_encoding, le_value, lemma_field_encoding_len, lemma_le_value_bound, lemma_pow256_pos,
    pow256, sha256_digest, string_to_bytes,
};
use crate::issuer::MAX_CREDENTIALS;
use vstd::prelude::*;

verus! {

#[derive(Clone, Copy, Debug, PartialEq, Eq, Structural)]
pub enum CircuitError {
    /// The number of commitment slots differs from `MAX_CREDENTIALS`, or a
    /// slot does not hold 32 bytes.
    ShapeMismatch,
    /// The cutoff year or a field of the credential does not encode a
    /// scalar-field element.
    InvalidEncoding,
    /// The cutoff year or the birth year lies outside the comparison range.
    OutOfRange,
}

/// One instance of the eligibility circuit.
#[derive(Clone, Debug)]
pub struct AgeCircuit {
    /// Public input: the cutoff year, in decimal.
    pub dob_cutoff_year: String,
    /// Witness: the issuer's published commitments.
    pub hashed_credentials: Vec<Vec<u8>>,
    /// Witness: the holder's credential.
    pub credential: Credential,
}

/// The plain values the constraint system allocates.
#[derive(Clone, Debug)]
pub struct CircuitWitness {
    /// Little-endian encoding of the cutoff year (the public input).
    pub cutoff_year: [u8; 32],
    /// Little-endian encoding of the holder's birth year.
    pub holder_dob_year: [u8; 32],
    /// The bytes hashed inside the circuit.
    pub preimage: Vec<u8>,
    /// The commitment slots.
    pub commitments: Vec<Vec<u8>>,
}

/// An encoded operand the comparison accepts: 32 bytes, value below `2^248`.
pub open spec fn in_cmp_range(b: Seq<u8>) -> bool {
    b.len() == 32 && le_value(b) < pow256(31)
}

/// The commitment slots of `c`, as byte strings.
pub open spec fn slots_of(c: AgeCircuit) -> Seq<Seq<u8>> {
    c.hashed_credentials@.map_values(|h: Vec<u8>| h@)
}

/// The error that building the witness of `c` meets first, if any.
pub open spec fn build_error(c: AgeCircuit) -> Option<CircuitError> {
    if slots_of(c).len() != MAX_CREDENTIALS || exists|i: int|
        0 <= i < slots_of(c).len() && (#[trigger] slots_of(c)[i]).len() != 32 {
        Some(CircuitError::ShapeMismatch)
    } else if field_encoding(c.dob_cutoff_year@) is None || preimage_of(c.credential) is None {
        Some(CircuitError::InvalidEncoding)
    } else if decimal_value(c.dob_cutoff_year@) >= pow256(31) || decimal_value(
        c.credential.holder_dob_year@,
    ) >= pow256(31) {
        Some(CircuitError::OutOfRange)
    } else {
        None
    }
}

/// The modelled eligibility relation, which the constraints are meant to
/// enforce: the credential's commitment occupies one of the slots, and its
/// birth year is below the cutoff year.
pub open spec fn eligible(c: AgeCircuit) -> bool {
    &&& build_error(c) is None
    &&& exists|i: int|
        0 <= i < slots_of(c).len() && #[trigger] slots_of(c)[i] == commitment_of(c.credential)->0
    &&& decimal_value(c.credential.holder_dob_year@) < decimal_value(c.dob_cutoff_year@)
}

/// A credential whose commitment occupies none of the slots never satisfies
/// the modelled relation, whatever its birth year and the cutoff year.
pub proof fn lemma_non_member_ineligible(c: AgeCircuit)
    requires
        forall|i: int|
            0 <= i < slots_of(c).len() ==> #[trigger] slots_of(c)[i] != commitment_of(
                c.credential,
            )->0,
    ensures
        !eligible(c),
{
}

/// Where the encoded birth year lies in the preimage.
pub const DOB_BYTES_START: usize = 64;

/// `w` is the witness of `c`: the encodings of the two years (whose values
/// are the years the texts denote), the preimage of the credential with the
/// encoded birth year at `DOB_BYTES_START`, and the commitment slots.
pub open spec fn is_witness_of(w: CircuitWitness, c: AgeCircuit) -> bool {
    &&& w.cutoff_year@ == field_encoding(c.dob_cutoff_year@)->0
    &&& w.holder_dob_year@ == field_encoding(c.credential.holder_dob_year@)->0
    &&& le_value(w.cutoff_year@) == decimal_value(c.dob_cutoff_year@)
    &&& le_value(w.holder_dob_year@) == decimal_value(c.credential.holder_dob_year@)
    &&& w.preimage@ == preimage_of(c.credential)->0
    &&& w.preimage@.subrange(DOB_BYTES_START as int, DOB_BYTES_START + 32) == w.holder_dob_year@
    &&& w.commitments@.map_values(|h: Vec<u8>| h@) == slots_of(c)
}

/// Two instances have the same shape: as many commitment slots, slots of equal
/// widths, and preimages of equal length.
pub open spec fn same_shape(a: AgeCircuit, b: AgeCircuit) -> bool {
    &&& slots_of(a).len() == slots_of(b).len()
    &&& forall|i: int|
        0 <= i < slots_of(a).len() ==> (#[trigger] slots_of(a)[i]).len() == slots_of(b)[i].len()
    &&& preimage_of(a.credential)->0.len() == preimage_of(b.credential)->0.len()
}

/// Every instance whose witness can be built has one and the same shape in
/// this model (slot count, slot widths, preimage length), the setup instance
/// among them. Whether the proving system's keys depend on nothing more is a
/// property of the constraint system, which is not modelled here.
pub proof fn lemma_one_shape(a: AgeCircuit, b: AgeCircuit)
    requires
        build_error(a) is None,
        build_error(b) is None,
    ensures
        same_shape(a, b),
{
    lemma_field_encoding_len(a.credential.holder_name@);
    lemma_field_encoding_len(a.credential.holder_dob_year@);
    lemma_field_encoding_len(a.credential.randomness@);
    lemma_field_encoding_len(b.credential.holder_name@);
    lemma_field_encoding_len(b.credential.holder_dob_year@);
    lemma_field_encoding_len(b.credential.randomness@);
    assert forall|i: int| 0 <= i < slots_of(a).len() implies (#[trigger] slots_of(a)[i]).len()
        == slots_of(b)[i].len() by {
        assert(slots_of(a)[i].len() == 32);
        assert(slots_of(b)[i].len() == 32);
    }
}

/// Equal top bytes do not change how two equally long values compare.
proof fn lemma_cmp_below(s: Seq<u8>, t: Seq<u8>, k: int)
    requires
        s.len() == t.len(),
        0 <= k <= s.len(),
        s.subrange(k, s.len() as int) == t.subrange(k, t.len() as int),
    ensures
        le_value(s) < le_value(t) <==> le_value(s.subrange(0, k)) < le_value(t.subrange(0, k)),
    decreases s.len(),
{
    if k == s.len() {
        assert(s.subrange(0, k) =~= s);
        assert(t.subrange(0, k) =~= t);
    } else {
        let n = s.len() as int;
        assert(s.last() == s.subrange(k, n)[n - 1 - k]);
        assert(t.last() == t.subrange(k, n)[n - 1 - k]);
        assert(s.drop_last().subrange(k, n - 1) =~= s.subrange(k, n).drop_last());
        assert(t.drop_last().subrange(k, n - 1) =~= t.subrange(k, n).drop_last());
        assert(s.drop_last().subrange(0, k) =~= s.subrange(0, k));
        assert(t.drop_last().subrange(0, k) =~= t.subrange(0, k));
        lemma_cmp_below(s.drop_last(), t.drop_last(), k);
    }
}

/// Of two equally long values, the one with the smaller top byte is smaller.
proof fn lemma_top_byte_decides(s: Seq<u8>, t: Seq<u8>)
    requires
        s.len() == t.len(),
        s.len() > 0,
        s.last() < t.last(),
    ensures
        le_value(s) < le_value(t),
{
    let b = pow256((s.len() - 1) as nat);
    let xs = s.last() as nat;
    let xt = t.last() as nat;
    lemma_le_value_bound(s.drop_last());
    assert((xs + 1) * b <= xt * b) by (nonlinear_arith)
        requires
            xs + 1 <= xt,
    ;
    assert((xs + 1) * b == xs * b + b) by (nonlinear_arith);
}

/// Whether the value of `a` is below that of `b`, both little-endian.
pub fn le_less(a: &[u8; 32], b: &[u8; 32]) -> (r: bool)
    ensures
        r == (le_value(a@) < le_value(b@)),
{
    let mut i: usize = 32;
    while i > 0
        invariant
            0 <= i <= 32,
            a@.len() == 32,
            b@.len() == 32,
            a@.subrange(i as int, 32) == b@.subrange(i as int, 32),
        decreases i,
    {
        i = i - 1;
        if a[i] != b[i] {
            proof {
                let k = (i + 1) as int;
                assert(a@.subrange(k, 32) =~= a@.subrange(i as int + 1, 32));
                lemma_cmp_below(a@, b@, k);
                if a[i as int] < b[i as int] {
                    lemma_top_byte_decides(a@.subrange(0, k), b@.subrange(0, k));
                } else {
                    lemma_top_byte_decides(b@.subrange(0, k), a@.subrange(0, k));
                }
            }
            return a[i] < b[i];
        }
        assert(a@.subrange(i as int, 32) =~= a@.subrange(i as int + 1, 32).insert(0, a@[i as int]));
        assert(b@.subrange(i as int, 32) =~= b@.subrange(i as int + 1, 32).insert(0, b@[i as int]));
    }
    assert(a@ =~= a@.subrange(0, 32));
    assert(b@ =~= b@.subrange(0, 32));
    false
}

/// Whether an encoded operand lies in the comparison range (its top byte is zero).
pub fn cmp_range_ok(b: &[u8; 32]) -> (r: bool)
    ensures
        r == in_cmp_range(b@),
{
    proof {
        assert(b@.len() == 32);
        lemma_le_value_bound(b@.drop_last());
        let x = b@.last() as nat;
        let p = pow256(31);
        lemma_pow256_pos(31);
        assert(x * p >= p ==> x >= 1) by (nonlinear_arith)
            requires
                p > 0,
        ;
        assert(x >= 1 ==> x * p >= p) by (nonlinear_arith);
        assert(x == 0 ==> x * p == 0) by (nonlinear_arith);
    }
    b[31] == 0
}

impl AgeCircuit {
    pub fn new(
        dob_cutoff_year: String,
        hashed_credentials: Vec<Vec<u8>>,
        credential: Credential,
    ) -> (r: Self)
        ensures
            r.dob_cutoff_year == dob_cutoff_year,
            r.hashed_credentials == hashed_credentials,
            r.credential == credential,
    {
        AgeCircuit { dob_cutoff_year, hashed_credentials, credential }
    }

    /// The plain witness of this instance, checked before any constraint is
    /// built: the slot count and widths, every encoding, and the comparison
    /// range of both years.
    pub fn witness(&self) -> (r: Result<CircuitWitness, CircuitError>)
        ensures
            match r {
                Ok(w) => build_error(*self) is None && is_witness_of(w, *self),
                Err(e) => build_error(*self) == Some(e),
            },
    {
        let ghost slots = slots_of(*self);
        if self.hashed_credentials.len() != MAX_CREDENTIALS {
            return Err(CircuitError::ShapeMismatch);
        }
        let mut i: usize = 0;
        while i < self.hashed_credentials.len()
            invariant
                0 <= i <= self.hashed_credentials@.len(),
                slots == slots_of(*self),
                slots.len() == self.hashed_credentials@.len(),
                forall|j: int| 0 <= j < i ==> (#[trigger] slots[j]).len() == 32,
            decreases self.hashed_credentials.len() - i,
        {
            if self.hashed_credentials[i].len() != 32 {
                assert(slots[i as int].len() != 32);
                return Err(CircuitError::ShapeMismatch);
            }
            i = i + 1;
        }
        let cutoff = match string_to_bytes(self.dob_cutoff_year.as_str()) {
            Some(b) => b,
            None => {
                return Err(CircuitError::InvalidEncoding);
            },
        };
        let preimage = match self.credential.preimage() {
            Some(p) => p,
            None => {
                return Err(CircuitError::InvalidEncoding);
            },
        };
        let dob = match string_to_bytes(self.credential.holder_dob_year.as_str()) {
            Some(b) => b,
            None => {
                return Err(CircuitError::InvalidEncoding);
            },
        };
        if !cmp_range_ok(&cutoff) || !cmp_range_ok(&dob) {
            return Err(CircuitError::OutOfRange);
        }
        let commitments = copy_byte_strings(&self.hashed_credentials);
        assert(commitments@.map_values(|h: Vec<u8>| h@) =~= slots);
        proof {
            lemma_field_encoding_len(self.credential.holder_name@);
            lemma_field_encoding_len(self.credential.holder_dob_year@);
            lemma_field_encoding_len(self.credential.randomness@);
            let n = field_encoding(self.credential.holder_name@)->0;
            let d = field_encoding(self.credential.holder_dob_year@)->0;
            let r = field_encoding(self.credential.randomness@)->0;
            assert(preimage@ == self.credential.issuer_id@ + n + d + r);
            assert(preimage@.subrange(64, 96) =~= d);
        }
        Ok(CircuitWitness { cutoff_year: cutoff, holder_dob_year: dob, preimage, commitments })
    }

    /// Evaluates the modelled relation (`eligible`) that the eligibility
    /// constraints are meant to enforce. Fails only where the witness cannot
    /// be built.
    pub fn is_satisfied(&self) -> (r: Result<bool, CircuitError>)
        ensures
            match r {
                Ok(b) => build_error(*self) is None && b == eligible(*self),
                Err(e) => build_error(*self) == Some(e),
            },
    {
        let w = match self.witness() {
            Ok(w) => w,
            Err(e) => {
                return Err(e);
            },
        };
        let digest = sha256_digest(&w.preimage);
        let ghost slots = slots_of(*self);
        assert(digest@ == commitment_of(self.credential)->0);
        let mut member = false;
        let mut i: usize = 0;
        while i < w.commitments.len()
            invariant
                0 <= i <= w.commitments@.len(),
                w.commitments@.map_values(|h: Vec<u8>| h@) == slots,
                member == exists|j: int| 0 <= j < i && #[trigger] slots[j] == digest@,
            decreases w.commitments.len() - i,
        {
            let eq = bytes_equal(&digest, &w.commitments[i]);
            assert(slots[i as int] == w.commitments@[i as int]@);
            if eq {
                assert(slots[i as int] == digest@);
            }
            member = member || eq;
            i = i + 1;
        }
        let below = le_less(&w.holder_dob_year, &w.cutoff_year);
        Ok(member && below)
    }
}

} // verus!
