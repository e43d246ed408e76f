//! Canonical encoding of proof artifacts as flat sequences of base-10 integer
//! strings, in the layout a fixed-ABI on-chain verifier expects.
//!
//! The encoding is structural: a field element is one string, a quadratic
//! extension element two (`c1` before `c0`), a point its coordinates in order,
//! and composite values the concatenation of their parts.

use crate::encoding::{decimal, digit_char};
use vstd::prelude::*;

verus! {

/// The views of a list of strings.
pub open spec fn strings_of(v: Seq<String>) -> Seq<Seq<char>> {
    v.map_values(|s: String| s@)
}

/// The concatenation, in order, of a list of string lists.
pub open spec fn concat_all(parts: Seq<Seq<Seq<char>>>) -> Seq<Seq<char>>
    decreases parts.len(),
{
    if parts.len() == 0 {
        Seq::empty()
    } else {
        concat_all(parts.drop_last()) + parts.last()
    }
}

/// `2^(64 n)`.
pub open spec fn limb_base_pow(n: nat) -> nat
    decreases n,
{
    if n == 0 {
        1
    } else {
        0x1_0000_0000_0000_0000 * limb_base_pow((n - 1) as nat)
    }
}

/// The unsigned integer whose 64-bit little-endian limbs are `l`.
pub open spec fn limbs_value(l: Seq<u64>) -> nat
    decreases l.len(),
{
    if l.len() == 0 {
        0
    } else {
        limbs_value(l.drop_last()) + (l.last() as nat) * limb_base_pow((l.len() - 1) as nat)
    }
}

/// Relies on ark-ff's `Display` for `BigInt<N>`, which prints num-bigint's
/// `BigUint` of the same value: its decimal digits, without leading zeros.
#[verifier::external_body]
fn bigint_decimal<const N: usize>(limbs: [u64; N]) -> (r: String)
    ensures
        r@ == decimal(limbs_value(limbs@)),
{
    ark_ff::BigInt::<N>(limbs).to_string()
}

/// Values that encode to a flat list of base-10 integer strings.
pub trait ToSolidity {
    /// The strings `to_solidity` returns.
    spec fn solidity(&self) -> Seq<Seq<char>>;

    fn to_solidity(&self) -> (r: Vec<String>)
        ensures
            strings_of(r@) == self.solidity(),
    ;
}

/// An element of a prime field, as the little-endian limbs of its canonical
/// integer representative.
#[derive(Clone, Copy, Debug)]
pub struct FieldElement<const N: usize> {
    pub limbs: [u64; N],
}

/// An element of a quadratic extension field: `c0 + c1 * u`.
#[derive(Clone, Copy, Debug)]
pub struct QuadExtElement<const N: usize> {
    pub c0: FieldElement<N>,
    pub c1: FieldElement<N>,
}

/// A curve point in affine coordinates (short-Weierstrass or twisted-Edwards).
#[derive(Clone, Copy, Debug)]
pub struct AffinePoint<F> {
    pub x: F,
    pub y: F,
}

/// A curve point in projective coordinates (short-Weierstrass or twisted-Edwards).
#[derive(Clone, Copy, Debug)]
pub struct ProjectivePoint<F> {
    pub x: F,
    pub y: F,
    pub z: F,
}

/// A Groth16 proof: two points of the first group and one of the second.
#[derive(Clone, Debug)]
pub struct Groth16Proof<G1, G2> {
    pub a: G1,
    pub b: G2,
    pub c: G1,
}

/// A Groth16 verifying key; `gamma_abc_g1` holds one point for the constant
/// term and one per public input.
#[derive(Clone, Debug)]
pub struct Groth16VerifyingKey<G1, G2> {
    pub alpha_g1: G1,
    pub beta_g2: G2,
    pub gamma_g2: G2,
    pub delta_g2: G2,
    pub gamma_abc_g1: Vec<G1>,
}

/// `a` followed by `b`.
fn join(a: Vec<String>, b: Vec<String>) -> (r: Vec<String>)
    ensures
        strings_of(r@) == strings_of(a@) + strings_of(b@),
{
    let mut a = a;
    let mut b = b;
    let ghost sa = a@;
    let ghost sb = b@;
    a.append(&mut b);
    assert(strings_of(a@) =~= strings_of(sa) + strings_of(sb));
    a
}

proof fn lemma_zero_limbs(l: Seq<u64>)
    requires
        forall|i: int| 0 <= i < l.len() ==> l[i] == 0,
    ensures
        limbs_value(l) == 0,
    decreases l.len(),
{
    if l.len() > 0 {
        lemma_zero_limbs(l.drop_last());
    }
}

/// The decimal notation of zero is `"0"`.
pub proof fn lemma_decimal_zero()
    ensures
        decimal(0) == seq!['0'],
{
    assert(decimal(0) == seq![digit_char(0)]);
}

/// The zero element always encodes to the single string `"0"`.
pub proof fn lemma_zero_encodes_as_zero<const N: usize>(x: FieldElement<N>)
    requires
        forall|i: int| 0 <= i < N ==> x.limbs@[i] == 0,
    ensures
        x.solidity() == seq![seq!['0']],
{
    lemma_zero_limbs(x.limbs@);
    lemma_decimal_zero();
}

/// A quadratic extension element encodes as `[c1, c0]`: its components in
/// reverse order.
pub proof fn lemma_extension_reversed<const N: usize>(e: QuadExtElement<N>)
    ensures
        e.solidity() == seq![decimal(limbs_value(e.c1.limbs@)), decimal(limbs_value(e.c0.limbs@))],
{
    assert(e.solidity() =~= seq![decimal(limbs_value(e.c1.limbs@)), decimal(limbs_value(e.c0.limbs@))]);
}

/// Encoding is deterministic: any two string lists that `to_solidity` may
/// return for one value are equal string by string.
pub proof fn lemma_encoding_deterministic<T: ToSolidity>(x: T, r1: Seq<String>, r2: Seq<String>)
    requires
        strings_of(r1) == x.solidity(),
        strings_of(r2) == x.solidity(),
    ensures
        r1.len() == r2.len(),
        forall|i: int| 0 <= i < r1.len() ==> (#[trigger] r1[i])@ == r2[i]@,
{
    assert(strings_of(r1).len() == r1.len());
    assert(strings_of(r2).len() == r2.len());
    assert forall|i: int| 0 <= i < r1.len() implies (#[trigger] r1[i])@ == r2[i]@ by {
        assert(strings_of(r1)[i] == r1[i]@);
        assert(strings_of(r2)[i] == r2[i]@);
    }
}

impl<const N: usize> FieldElement<N> {
    /// Whether every limb is zero.
    pub fn is_zero(&self) -> (r: bool)
        ensures
            r == forall|i: int| 0 <= i < N ==> self.limbs@[i] == 0,
    {
        let mut i: usize = 0;
        while i < N
            invariant
                0 <= i <= N,
                self.limbs@.len() == N,
                forall|j: int| 0 <= j < i ==> self.limbs@[j] == 0,
            decreases N - i,
        {
            if self.limbs[i] != 0 {
                return false;
            }
            i = i + 1;
        }
        true
    }

    /// The decimal text of the element's value; `"0"` for zero.
    pub fn to_decimal(&self) -> (r: String)
        ensures
            r@ == decimal(limbs_value(self.limbs@)),
    {
        if self.is_zero() {
            proof {
                lemma_zero_limbs(self.limbs@);
                lemma_decimal_zero();
                reveal_strlit("0");
            }
            "0".to_owned()
        } else {
            bigint_decimal(self.limbs)
        }
    }
}

impl<const N: usize> ToSolidity for FieldElement<N> {
    open spec fn solidity(&self) -> Seq<Seq<char>> {
        seq![decimal(limbs_value(self.limbs@))]
    }

    fn to_solidity(&self) -> (r: Vec<String>) {
        let r = vec![self.to_decimal()];
        assert(strings_of(r@) =~= self.solidity());
        r
    }
}

impl<const N: usize> ToSolidity for QuadExtElement<N> {
    open spec fn solidity(&self) -> Seq<Seq<char>> {
        self.c1.solidity() + self.c0.solidity()
    }

    fn to_solidity(&self) -> (r: Vec<String>) {
        join(self.c1.to_solidity(), self.c0.to_solidity())
    }
}

impl<F: ToSolidity> ToSolidity for AffinePoint<F> {
    open spec fn solidity(&self) -> Seq<Seq<char>> {
        self.x.solidity() + self.y.solidity()
    }

    fn to_solidity(&self) -> (r: Vec<String>) {
        join(self.x.to_solidity(), self.y.to_solidity())
    }
}

impl<F: ToSolidity> ToSolidity for ProjectivePoint<F> {
    open spec fn solidity(&self) -> Seq<Seq<char>> {
        self.x.solidity() + self.y.solidity() + self.z.solidity()
    }

    fn to_solidity(&self) -> (r: Vec<String>) {
        let xy = join(self.x.to_solidity(), self.y.to_solidity());
        join(xy, self.z.to_solidity())
    }
}

impl<T: ToSolidity> ToSolidity for Vec<T> {
    open spec fn solidity(&self) -> Seq<Seq<char>> {
        concat_all(self@.map_values(|x: T| x.solidity()))
    }

    fn to_solidity(&self) -> (r: Vec<String>) {
        let mut r: Vec<String> = Vec::new();
        let mut i: usize = 0;
        while i < self.len()
            invariant
                0 <= i <= self@.len(),
                strings_of(r@) == concat_all(self@.subrange(0, i as int).map_values(|x: T| x.solidity())),
            decreases self.len() - i,
        {
            let part = self[i].to_solidity();
            r = join(r, part);
            proof {
                let before = self@.subrange(0, i as int).map_values(|x: T| x.solidity());
                let after = self@.subrange(0, i + 1).map_values(|x: T| x.solidity());
                assert(after.drop_last() =~= before);
                assert(after.last() == self@[i as int].solidity());
            }
            i = i + 1;
        }
        assert(self@.subrange(0, self@.len() as int) =~= self@);
        r
    }
}

impl<T: ToSolidity, const N: usize> ToSolidity for [T; N] {
    open spec fn solidity(&self) -> Seq<Seq<char>> {
        concat_all(self@.map_values(|x: T| x.solidity()))
    }

    fn to_solidity(&self) -> (r: Vec<String>) {
        let mut r: Vec<String> = Vec::new();
        let mut i: usize = 0;
        while i < N
            invariant
                0 <= i <= N,
                self@.len() == N,
                strings_of(r@) == concat_all(self@.subrange(0, i as int).map_values(|x: T| x.solidity())),
            decreases N - i,
        {
            let part = self[i].to_solidity();
            r = join(r, part);
            proof {
                let before = self@.subrange(0, i as int).map_values(|x: T| x.solidity());
                let after = self@.subrange(0, i + 1).map_values(|x: T| x.solidity());
                assert(after.drop_last() =~= before);
                assert(after.last() == self@[i as int].solidity());
            }
            i = i + 1;
        }
        assert(self@.subrange(0, N as int) =~= self@);
        r
    }
}

impl<G1: ToSolidity, G2: ToSolidity> ToSolidity for Groth16Proof<G1, G2> {
    open spec fn solidity(&self) -> Seq<Seq<char>> {
        self.a.solidity() + self.b.solidity() + self.c.solidity()
    }

    fn to_solidity(&self) -> (r: Vec<String>) {
        let ab = join(self.a.to_solidity(), self.b.to_solidity());
        join(ab, self.c.to_solidity())
    }
}

impl<G1: ToSolidity, G2: ToSolidity> ToSolidity for Groth16VerifyingKey<G1, G2> {
    open spec fn solidity(&self) -> Seq<Seq<char>> {
        self.alpha_g1.solidity() + self.beta_g2.solidity() + self.gamma_g2.solidity()
            + self.delta_g2.solidity() + self.gamma_abc_g1.solidity()
    }

    fn to_solidity(&self) -> (r: Vec<String>) {
        let r = join(self.alpha_g1.to_solidity(), self.beta_g2.to_solidity());
        let r = join(r, self.gamma_g2.to_solidity());
        let r = join(r, self.delta_g2.to_solidity());
        join(r, self.gamma_abc_g1.to_solidity())
    }
}

} // verus!
