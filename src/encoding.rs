//! Byte encodings shared by the credential model and the circuit: scalar-field
//! elements written as decimal text, their 32-byte little-endian form, and the
//! SHA-256 digest.

use ark_crypto_primitives::crh::sha256::digest::Digest;
use ark_crypto_primitives::crh::sha256::Sha256;
use ark_ff::BigInteger;
use ark_ff::PrimeField;
use std::str::FromStr;
use vstd::prelude::*;

verus! {

/// Width in bytes of an encoded scalar-field element and of a digest.
pub const ENCODED_LEN: usize = 32;

/// The SHA-256 digest of a byte string.
pub uninterp spec fn sha256_of(data: Seq<u8>) -> Seq<u8>;

/// Relies on sha2's `Sha256::digest`, re-exported by ark-crypto-primitives:
/// the 32-byte digest of the input.
#[verifier::external_body]
pub(crate) fn sha256_digest(data: &Vec<u8>) -> (r: Vec<u8>)
    ensures
        r@ == sha256_of(data@),
        r@.len() == ENCODED_LEN,
{
    Sha256::digest(data.as_slice()).to_vec()
}

/// `256^n`.
pub open spec fn pow256(n: nat) -> nat
    decreases n,
{
    if n == 0 {
        1
    } else {
        256 * pow256((n - 1) as nat)
    }
}

/// The unsigned integer whose little-endian bytes are `s`.
pub open spec fn le_value(s: Seq<u8>) -> nat
    decreases s.len(),
{
    if s.len() == 0 {
        0
    } else {
        le_value(s.drop_last()) + (s.last() as nat) * pow256((s.len() - 1) as nat)
    }
}

/// The decimal digit for `d < 10`.
pub open spec fn digit_char(d: nat) -> char {
    seq!['0', '1', '2', '3', '4', '5', '6', '7', '8', '9'][d as int]
}

/// The decimal notation of `n`, without leading zeros (`"0"` for zero).
pub open spec fn decimal(n: nat) -> Seq<char>
    decreases n,
{
    if n < 10 {
        seq![digit_char(n)]
    } else {
        decimal(n / 10).push(digit_char(n % 10))
    }
}

/// The order `r` of BN254's scalar field,
/// 21888242871839275222246405745257275088548364400416034343698204186575808495617,
/// written in 64-bit limbs.
pub open spec fn scalar_order() -> nat {
    let b: nat = 0x1_0000_0000_0000_0000;
    ((0x30644e72e131a029nat * b + 0xb85045b68181585dnat) * b + 0x2833e84879b97091nat) * b
        + 0x43e1f593f0000001nat
}

/// The value of a decimal digit character (zero for any other character).
pub open spec fn digit_value(c: char) -> nat {
    if c == '1' {
        1
    } else if c == '2' {
        2
    } else if c == '3' {
        3
    } else if c == '4' {
        4
    } else if c == '5' {
        5
    } else if c == '6' {
        6
    } else if c == '7' {
        7
    } else if c == '8' {
        8
    } else if c == '9' {
        9
    } else {
        0
    }
}

/// The value of a text read as decimal digits, most significant first.
pub open spec fn decimal_value(s: Seq<char>) -> nat
    decreases s.len(),
{
    if s.len() == 0 {
        0
    } else {
        decimal_value(s.drop_last()) * 10 + digit_value(s.last())
    }
}

/// The text is the canonical decimal notation (digits only, no sign, no
/// leading zeros) of an integer below the scalar field's order.
pub open spec fn is_field_text(s: Seq<char>) -> bool {
    &&& decimal_value(s) < scalar_order()
    &&& s == decimal(decimal_value(s))
}

/// `n` modulo `256^m`.
pub open spec fn low_part(n: nat, m: nat) -> nat {
    (n % pow256(m)) as nat
}

/// The `k` little-endian bytes of `n` (taken modulo `256^k`).
pub open spec fn le_bytes(n: nat, k: nat) -> Seq<u8>
    decreases k,
{
    if k == 0 {
        Seq::empty()
    } else {
        le_bytes(low_part(n, (k - 1) as nat), (k - 1) as nat).push(
            ((n / pow256((k - 1) as nat)) % 256) as u8,
        )
    }
}

/// The 32-byte little-endian encoding of the scalar-field element that a
/// field text denotes; `None` for any other text.
pub open spec fn field_encoding(s: Seq<char>) -> Option<Seq<u8>> {
    if is_field_text(s) {
        Some(le_bytes(decimal_value(s), ENCODED_LEN as nat))
    } else {
        None
    }
}

/// Relies on ark-ff's `FromStr` for `Fp` (here BN254's `Fr`), followed by
/// `into_bigint().to_bytes_le()`. Whatever it returns is a canonical element,
/// below the field's order; and the canonical decimal of an integer below the
/// order is read as that integer.
#[verifier::external_body]
fn parse_scalar(s: &str) -> (r: Option<[u8; 32]>)
    ensures
        match r {
            Some(b) => le_value(b@) < scalar_order(),
            None => true,
        },
        forall|n: nat|
            n < scalar_order() && s@ == #[trigger] decimal(n) ==> (r is Some && le_value(
                r->0@,
            ) == n),
{
    match ark_bn254::Fr::from_str(s) {
        Ok(f) => f.into_bigint().to_bytes_le().try_into().ok(),
        Err(_) => None,
    }
}

/// Relies on ark-ff's `Fp::from_le_bytes_mod_order` (here BN254's `Fr`) and
/// its `Display`, which prints the element's canonical integer in decimal,
/// without leading zeros. Below the order the bytes are taken as they are.
#[verifier::external_body]
fn scalar_decimal(b: &[u8; 32]) -> (r: String)
    requires
        le_value(b@) < scalar_order(),
    ensures
        r@ == decimal(le_value(b@)),
{
    ark_bn254::Fr::from_le_bytes_mod_order(b).to_string()
}

proof fn lemma_digit_round_trip(d: nat)
    requires
        d < 10,
    ensures
        digit_value(digit_char(d)) == d,
{
    let digits = seq!['0', '1', '2', '3', '4', '5', '6', '7', '8', '9'];
    assert(digit_char(d) == digits[d as int]);
    if d == 0 {
    } else if d == 1 {
    } else if d == 2 {
    } else if d == 3 {
    } else if d == 4 {
    } else if d == 5 {
    } else if d == 6 {
    } else if d == 7 {
    } else if d == 8 {
    } else {
        assert(d == 9);
    }
}

/// Reading the decimal notation of `n` gives back `n`.
pub proof fn lemma_decimal_round_trip(n: nat)
    ensures
        decimal_value(decimal(n)) == n,
    decreases n,
{
    let s = decimal(n);
    if n < 10 {
        lemma_digit_round_trip(n);
        assert(s == seq![digit_char(n)]);
        assert(s.len() == 1);
        assert(s.last() == digit_char(n));
        assert(s.drop_last() =~= Seq::<char>::empty());
        assert(decimal_value(s) == decimal_value(s.drop_last()) * 10 + digit_value(s.last()));
    } else {
        lemma_decimal_round_trip(n / 10);
        lemma_digit_round_trip(n % 10);
        assert(s == decimal(n / 10).push(digit_char(n % 10)));
        assert(s.drop_last() =~= decimal(n / 10));
        assert(s.last() == digit_char(n % 10));
        assert(decimal_value(s) == decimal_value(s.drop_last()) * 10 + digit_value(s.last()));
        assert(n == (n / 10) * 10 + n % 10);
    }
}

/// `le_bytes(n, k)` has `k` bytes.
pub proof fn lemma_le_bytes_len(n: nat, k: nat)
    ensures
        le_bytes(n, k).len() == k,
    decreases k,
{
    if k > 0 {
        lemma_le_bytes_len(low_part(n, (k - 1) as nat), (k - 1) as nat);
    }
}

/// A field encoding has 32 bytes.
pub proof fn lemma_field_encoding_len(s: Seq<char>)
    ensures
        field_encoding(s) is Some ==> field_encoding(s)->0.len() == ENCODED_LEN,
{
    lemma_le_bytes_len(decimal_value(s), ENCODED_LEN as nat);
}

/// A byte string is the `le_bytes` of its own value.
pub proof fn lemma_le_bytes_of_value(b: Seq<u8>)
    ensures
        b == le_bytes(le_value(b), b.len()),
    decreases b.len(),
{
    if b.len() > 0 {
        let k = (b.len() - 1) as nat;
        let p = pow256(k);
        let v = le_value(b.drop_last());
        let x = b.last() as nat;
        let n = le_value(b);
        lemma_le_value_bound(b.drop_last());
        lemma_pow256_pos(k);
        vstd::arithmetic::div_mod::lemma_fundamental_div_mod_converse(n as int, p as int, x as int, v as int);
        vstd::arithmetic::div_mod::lemma_small_mod(x, 256);
        lemma_le_bytes_of_value(b.drop_last());
        assert(b =~= le_bytes(v, k).push(b.last()));
    }
}

pub proof fn lemma_pow256_pos(n: nat)
    ensures
        pow256(n) > 0,
    decreases n,
{
    if n > 0 {
        lemma_pow256_pos((n - 1) as nat);
    }
}

/// The value of `n` little-endian bytes is below `256^n`.
pub proof fn lemma_le_value_bound(s: Seq<u8>)
    ensures
        le_value(s) < pow256(s.len()),
    decreases s.len(),
{
    if s.len() > 0 {
        let b = pow256((s.len() - 1) as nat);
        let x = s.last() as nat;
        lemma_le_value_bound(s.drop_last());
        assert(x * b <= 255 * b) by (nonlinear_arith)
            requires
                x <= 255,
        ;
    }
}

/// Encodes a field text (the canonical decimal of an integer below the
/// scalar field's order) as its 32 little-endian bytes. Any other text
/// (empty, signed, with separators or leading zeros, not numeric, or at least
/// the order) is refused with `None`.
pub fn string_to_bytes(s: &str) -> (r: Option<[u8; 32]>)
    ensures
        match r {
            Some(b) => {
                &&& field_encoding(s@) == Some(b@)
                &&& le_value(b@) == decimal_value(s@)
                &&& le_value(b@) < scalar_order()
                &&& s@ == decimal(le_value(b@))
            },
            None => {
                &&& field_encoding(s@) is None
                &&& forall|n: nat| n < scalar_order() ==> s@ != #[trigger] decimal(n)
            },
        },
{
    match parse_scalar(s) {
        Some(b) => {
            let text = scalar_decimal(&b);
            let given = s.to_owned();
            if text == given {
                proof {
                    lemma_decimal_round_trip(le_value(b@));
                    lemma_le_bytes_of_value(b@);
                }
                Some(b)
            } else {
                proof {
                    lemma_decimal_round_trip(decimal_value(s@));
                }
                None
            }
        },
        None => {
            proof {
                lemma_decimal_round_trip(decimal_value(s@));
            }
            None
        },
    }
}

/// Appends the bytes of `b` to `v`.
pub fn append_bytes(v: &mut Vec<u8>, b: &[u8; 32])
    ensures
        final(v)@ == old(v)@ + b@,
{
    let ghost start = v@;
    let mut i: usize = 0;
    while i < 32
        invariant
            0 <= i <= 32,
            v@ == start + b@.subrange(0, i as int),
        decreases 32 - i,
    {
        v.push(b[i]);
        i = i + 1;
        assert(b@.subrange(0, i as int) == b@.subrange(0, i - 1).push(b@[i - 1]));
    }
    assert(b@.subrange(0, 32) == b@);
}

/// Whether two byte strings are equal.
pub fn bytes_equal(a: &Vec<u8>, b: &Vec<u8>) -> (r: bool)
    ensures
        r == (a@ == b@),
{
    if a.len() != b.len() {
        return false;
    }
    let mut i: usize = 0;
    while i < a.len()
        invariant
            a@.len() == b@.len(),
            0 <= i <= a@.len(),
            forall|j: int| 0 <= j < i ==> a@[j] == b@[j],
        decreases a.len() - i,
    {
        if a[i] != b[i] {
            return false;
        }
        i = i + 1;
    }
    assert(a@ =~= b@);
    true
}

/// Copies a list of byte strings.
pub fn copy_byte_strings(v: &Vec<Vec<u8>>) -> (r: Vec<Vec<u8>>)
    ensures
        r@.len() == v@.len(),
        forall|i: int| 0 <= i < v@.len() ==> #[trigger] r@[i]@ == v@[i]@,
{
    let mut r: Vec<Vec<u8>> = Vec::new();
    let mut i: usize = 0;
    while i < v.len()
        invariant
            0 <= i <= v@.len(),
            r@.len() == i,
            forall|j: int| 0 <= j < i ==> #[trigger] r@[j]@ == v@[j]@,
        decreases v.len() - i,
    {
        r.push(v[i].clone());
        i = i + 1;
    }
    r
}

} // verus!
