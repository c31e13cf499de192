//! Protocol core of a privacy-preserving, Sybil-resistant contact-tracing
//! scheme: users register once under a threshold-issued anonymous
//! credential, broadcast unlinkable per-epoch pseudonyms, and, if
//! diagnosed, disclose pseudonyms under a zero-knowledge proof that a
//! verifier checks against a public token registry.  Exposed users then
//! locally intersect confirmed pseudonyms with their own broadcast
//! history and alarm past an exposure limit.

pub mod group;
pub mod pedersen;
pub mod tact;
pub mod state;
pub mod spirit;
