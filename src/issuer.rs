//! The issuer: a bounded, append-only registry of issued credentials and their
//! published commitments.

use crate::credential::{commitment_of, Credential};
use crate::encoding::{copy_byte_strings, field_encoding, string_to_bytes};
use vstd::prelude::*;

verus! {

/// Capacity of an issuer's registry; also the number of commitment slots of
/// every eligibility circuit built against it.
pub const MAX_CREDENTIALS: usize = 3;

#[derive(Clone, Copy, Debug, PartialEq, Eq, Structural)]
pub enum IssuerError {
    /// The registry already holds `MAX_CREDENTIALS` credentials.
    MaxCredentialsReached,
    /// The registry does not yet hold `MAX_CREDENTIALS` credentials.
    IncompleteList,
    /// A text does not encode a scalar-field element.
    InvalidEncoding,
}

pub struct Issuer {
    pub id: [u8; 32],
    credentials: Vec<Credential>,
    hashed_credentials: Vec<Vec<u8>>,
}

impl Issuer {
    /// The issuer's identifier.
    pub closed spec fn identifier(&self) -> Seq<u8> {
        self.id@
    }

    /// The issuer's identifier, as stored in `id`.
    pub fn identifier_bytes(&self) -> (r: [u8; 32])
        ensures
            r@ == self.identifier(),
    {
        self.id
    }

    /// The credentials issued so far, in issuance order.
    pub closed spec fn issued(&self) -> Seq<Credential> {
        self.credentials@
    }

    /// The published commitments, in issuance order.
    pub closed spec fn published(&self) -> Seq<Seq<u8>> {
        self.hashed_credentials@.map_values(|h: Vec<u8>| h@)
    }

    /// The registry invariant: at most `MAX_CREDENTIALS` entries, and the
    /// commitment in each slot is that of the credential in the same slot and
    /// has 32 bytes.
    pub open spec fn wf(&self) -> bool {
        &&& self.issued().len() == self.published().len()
        &&& self.issued().len() <= MAX_CREDENTIALS
        &&& forall|i: int|
            0 <= i < self.issued().len() ==> commitment_of(#[trigger] self.issued()[i]) == Some(
                self.published()[i],
            )
        &&& forall|i: int| 0 <= i < self.published().len() ==> (#[trigger] self.published()[i]).len()
            == 32
    }

    /// An issuer with an empty registry; the identifier is the encoding of
    /// `id` as a scalar-field element.
    pub fn new(id: &str) -> (r: Result<Self, IssuerError>)
        ensures
            match r {
                Ok(iss) => {
                    &&& field_encoding(id@) == Some(iss.identifier())
                    &&& iss.wf()
                    &&& iss.issued().len() == 0
                },
                Err(e) => e == IssuerError::InvalidEncoding && field_encoding(id@) is None,
            },
    {
        match string_to_bytes(id) {
            Some(b) => {
                let iss = Issuer { id: b, credentials: Vec::new(), hashed_credentials: Vec::new() };
                assert(iss.published() =~= Seq::<Seq<u8>>::empty());
                Ok(iss)
            },
            None => Err(IssuerError::InvalidEncoding),
        }
    }

    /// Issues `cred`: appends it and its commitment to the registry. Fails,
    /// leaving the registry as it was, when the registry is full or when a
    /// field of `cred` does not encode a scalar-field element.
    pub fn issue_credential(&mut self, cred: &Credential) -> (r: Result<(), IssuerError>)
        requires
            old(self).wf(),
        ensures
            final(self).wf(),
            final(self).identifier() == old(self).identifier(),
            issue_step(*old(self), *cred, *final(self), r),
    {
        if self.credentials.len() >= MAX_CREDENTIALS {
            return Err(IssuerError::MaxCredentialsReached);
        }
        match cred.to_sha256() {
            Some(h) => {
                self.credentials.push(cred.duplicate());
                self.hashed_credentials.push(h);
                assert(self.published() =~= old(self).published().push(h@));
                assert(self.published()[self.published().len() - 1] == h@);
                Ok(())
            },
            None => Err(IssuerError::InvalidEncoding),
        }
    }

    /// The issued credentials in issuance order, once the registry is full.
    pub fn credentials(&self) -> (r: Result<Vec<Credential>, IssuerError>)
        requires
            self.wf(),
        ensures
            self.issued().len() != MAX_CREDENTIALS ==> r == Err::<Vec<Credential>, IssuerError>(
                IssuerError::IncompleteList,
            ),
            self.issued().len() == MAX_CREDENTIALS ==> r is Ok && r->Ok_0@ == self.issued(),
    {
        if self.credentials.len() != MAX_CREDENTIALS {
            return Err(IssuerError::IncompleteList);
        }
        let mut out: Vec<Credential> = Vec::new();
        let mut i: usize = 0;
        while i < self.credentials.len()
            invariant
                0 <= i <= self.credentials@.len(),
                out@ == self.credentials@.subrange(0, i as int),
            decreases self.credentials.len() - i,
        {
            out.push(self.credentials[i].duplicate());
            i = i + 1;
            assert(out@ =~= self.credentials@.subrange(0, i as int));
        }
        assert(out@ =~= self.credentials@);
        Ok(out)
    }

    /// The published commitments in issuance order, once the registry is full.
    pub fn hashed_credentials(&self) -> (r: Result<Vec<Vec<u8>>, IssuerError>)
        requires
            self.wf(),
        ensures
            self.issued().len() != MAX_CREDENTIALS ==> r == Err::<Vec<Vec<u8>>, IssuerError>(
                IssuerError::IncompleteList,
            ),
            self.issued().len() == MAX_CREDENTIALS ==> r is Ok && r->Ok_0@.map_values(
                |h: Vec<u8>| h@,
            ) == self.published(),
    {
        if self.hashed_credentials.len() != MAX_CREDENTIALS {
            return Err(IssuerError::IncompleteList);
        }
        let out = copy_byte_strings(&self.hashed_credentials);
        assert(out@.map_values(|h: Vec<u8>| h@) =~= self.published());
        Ok(out)
    }
}

/// What one call of `issue_credential` does: on a full registry it fails with
/// `MaxCredentialsReached`; on a credential with a field that encodes no
/// scalar-field element it fails with `InvalidEncoding`; either failure leaves
/// the registry as it was. Otherwise the credential and its commitment are
/// appended. The identifier never changes, and the registry stays well formed.
pub open spec fn issue_step(
    pre: Issuer,
    cred: Credential,
    post: Issuer,
    r: Result<(), IssuerError>,
) -> bool {
    &&& post.wf()
    &&& post.identifier() == pre.identifier()
    &&& pre.issued().len() >= MAX_CREDENTIALS ==> {
        &&& r == Err::<(), IssuerError>(IssuerError::MaxCredentialsReached)
        &&& post.issued() == pre.issued()
        &&& post.published() == pre.published()
    }
    &&& pre.issued().len() < MAX_CREDENTIALS && commitment_of(cred) is None ==> {
        &&& r == Err::<(), IssuerError>(IssuerError::InvalidEncoding)
        &&& post.issued() == pre.issued()
        &&& post.published() == pre.published()
    }
    &&& pre.issued().len() < MAX_CREDENTIALS && commitment_of(cred) is Some ==> {
        &&& r is Ok
        &&& post.issued() == pre.issued().push(cred)
        &&& post.published() == pre.published().push(commitment_of(cred)->0)
    }
}

proof fn lemma_issued_count(
    states: Seq<Issuer>,
    creds: Seq<Credential>,
    results: Seq<Result<(), IssuerError>>,
    k: int,
)
    requires
        states.len() == creds.len() + 1,
        results.len() == creds.len(),
        states[0].wf(),
        states[0].issued().len() == 0,
        forall|i: int|
            0 <= i < creds.len() ==> issue_step(
                #[trigger] states[i],
                creds[i],
                states[i + 1],
                results[i],
            ),
        forall|i: int| 0 <= i < creds.len() ==> (#[trigger] commitment_of(creds[i])) is Some,
        0 <= k <= creds.len(),
    ensures
        states[k].wf(),
        states[k].issued().len() == if k < MAX_CREDENTIALS {
            k
        } else {
            MAX_CREDENTIALS as int
        },
    decreases k,
{
    if k > 0 {
        lemma_issued_count(states, creds, results, k - 1);
        assert(issue_step(states[k - 1], creds[k - 1], states[k], results[k - 1]));
    }
}

/// Capacity law: starting from an empty registry and issuing well-encoded
/// credentials one after another, the first `MAX_CREDENTIALS` issuances
/// succeed, and every later one fails with `MaxCredentialsReached` and leaves
/// the registry unchanged.
pub proof fn lemma_capacity(
    states: Seq<Issuer>,
    creds: Seq<Credential>,
    results: Seq<Result<(), IssuerError>>,
)
    requires
        states.len() == creds.len() + 1,
        results.len() == creds.len(),
        states[0].wf(),
        states[0].issued().len() == 0,
        forall|i: int|
            0 <= i < creds.len() ==> issue_step(
                #[trigger] states[i],
                creds[i],
                states[i + 1],
                results[i],
            ),
        forall|i: int| 0 <= i < creds.len() ==> (#[trigger] commitment_of(creds[i])) is Some,
    ensures
        forall|i: int| 0 <= i < creds.len() && i < MAX_CREDENTIALS ==> (#[trigger] results[i]) is Ok,
        forall|i: int|
            0 <= i < creds.len() && i >= MAX_CREDENTIALS ==> {
                &&& #[trigger] results[i] == Err::<(), IssuerError>(
                    IssuerError::MaxCredentialsReached,
                )
                &&& states[i + 1].issued() == states[i].issued()
                &&& states[i + 1].published() == states[i].published()
            },
{
    assert forall|i: int| 0 <= i < creds.len() implies {
        &&& i < MAX_CREDENTIALS ==> (#[trigger] results[i]) is Ok
        &&& i >= MAX_CREDENTIALS ==> {
            &&& results[i] == Err::<(), IssuerError>(IssuerError::MaxCredentialsReached)
            &&& states[i + 1].issued() == states[i].issued()
            &&& states[i + 1].published() == states[i].published()
        }
    } by {
        lemma_issued_count(states, creds, results, i);
        assert(issue_step(states[i], creds[i], states[i + 1], results[i]));
        assert(commitment_of(creds[i]) is Some);
    }
}

} // verus!
