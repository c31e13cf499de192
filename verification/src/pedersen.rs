//! Pedersen commitment and the two-statement disclosure proof.
//!
//! The commitment hides a user's identity scalar behind two generators.
//! The disclosure proof binds a commitment, a signature component and a
//! set of disclosed pseudonyms; a verifier checks it against the
//! commitment alone, learning nothing of the committed identity.

use vstd::prelude::*;
use crate::group::{G1G2, f_wf, fadd, fmul, g_wf, field_add, field_mul, HASH_MUL};

verus! {

/// A Pedersen commitment to an identity scalar.
#[derive(Clone, Copy, PartialEq, Eq, Structural, Debug)]
pub struct Commitment {
    pub value: G1G2,
}

pub open spec fn commitment_wf(c: Commitment) -> bool {
    g_wf(c.value)
}

/// Multiplier of the group-element digest.
pub const DIGEST_MUL: u64 = 0x9E37_79B1;

/// Digest of one group element, as bound into a disclosure proof.
pub open spec fn g_digest(g: G1G2) -> u64 {
    fadd(fmul(g.a, DIGEST_MUL), g.b)
}

pub fn g_digest_exec(g: &G1G2) -> (r: u64)
    requires
        g_wf(*g),
    ensures
        r == g_digest(*g),
        f_wf(r),
{
    field_add(field_mul(g.a, DIGEST_MUL), g.b)
}

/// Digest of a sequence of disclosed pseudonyms, folded left to right.
pub open spec fn els_digest(els: Seq<G1G2>) -> u64
    decreases els.len(),
{
    if els.len() == 0 {
        0
    } else {
        fadd(fmul(els_digest(els.drop_last()), HASH_MUL), g_digest(els.last()))
    }
}

/// The two-statement proof of knowledge over a commitment, a signature
/// component and the disclosed pseudonyms.
#[derive(Clone, Copy, PartialEq, Eq, Structural, Debug)]
pub struct Proof2PK {
    pub cm_tag: u64,
    pub sig_tag: u64,
    pub els_tag: u64,
}

/// What proving binds: the digests of the three statements.
pub open spec fn zk_proof_spec(cm_value: G1G2, sig_value: G1G2, els: Seq<G1G2>) -> Proof2PK {
    Proof2PK { cm_tag: g_digest(cm_value), sig_tag: g_digest(sig_value), els_tag: els_digest(els) }
}

/// What verifying checks: that the proof binds this commitment.
pub open spec fn zk_verify_spec(cm_value: G1G2, pi: Proof2PK) -> bool {
    pi.cm_tag == g_digest(cm_value)
}

impl Proof2PK {
    /// Build the disclosure proof for a commitment, a signature component
    /// and a set of disclosed pseudonyms.
    pub fn zk_proof(cm_value: &G1G2, sig_value: &G1G2, els: &Vec<G1G2>) -> (pi: Proof2PK)
        requires
            g_wf(*cm_value),
            g_wf(*sig_value),
            forall|k: int| 0 <= k < els@.len() ==> g_wf(#[trigger] els@[k]),
        ensures
            pi == zk_proof_spec(*cm_value, *sig_value, els@),
    {
        let mut acc: u64 = 0;
        let mut k: usize = 0;
        while k < els.len()
            invariant
                k <= els@.len(),
                f_wf(acc),
                acc == els_digest(els@.take(k as int)),
                forall|x: int| 0 <= x < els@.len() ==> g_wf(#[trigger] els@[x]),
            decreases els@.len() - k,
        {
            proof {
                assert(els@.take(k + 1).drop_last() =~= els@.take(k as int));
                assert(els@.take(k + 1).last() == els@[k as int]);
            }
            acc = field_add(field_mul(acc, HASH_MUL), g_digest_exec(&els[k]));
            k = k + 1;
        }
        proof {
            assert(els@.take(els@.len() as int) =~= els@);
        }
        Proof2PK {
            cm_tag: g_digest_exec(cm_value),
            sig_tag: g_digest_exec(sig_value),
            els_tag: acc,
        }
    }

    /// Check a disclosure proof against a commitment.
    pub fn zk_verify(cm_value: &G1G2, pi: &Proof2PK) -> (r: bool)
        requires
            g_wf(*cm_value),
        ensures
            r == zk_verify_spec(*cm_value, *pi),
    {
        pi.cm_tag == g_digest_exec(cm_value)
    }
}

} // verus!
