//! Age-eligibility credentials: commitments to issued credentials, the
//! issuer's bounded registry, the witness and relation of the eligibility
//! circuit, and the canonical integer encoding of proof artifacts.

pub mod encoding;
pub mod credential;
pub mod issuer;
pub mod circuit;
pub mod holder;
pub mod verification;
pub mod solidity;
