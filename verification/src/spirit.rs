//! The six protocol phases: setup, threshold registration, pseudonym
//! broadcast, diagnosis disclosure, report verification, and exposure
//! tracing.
//!
//! Disclosure is batched: one report discloses the pseudonyms of every
//! contact epoch under a single proof.  Verification inserts every
//! disclosed pseudonym into the confirmed set on accept and leaves the
//! set untouched on reject, so that a rejected report can never erase a
//! pseudonym that a still-valid report confirmed.

use vstd::prelude::*;
use crate::group::{
    G1G2, Scalar, f_wf, g_wf, scalar_wf, g_scale, g_scale_spec, hash_group_spec,
    hash_with_domain_separation, le_bytes, random_group, random_scalar, to_le_bytes,
};
use crate::pedersen::{Commitment, Proof2PK, commitment_wf, zk_proof_spec, zk_verify_spec};
use crate::tact::{
    self, Issuer, PartialToken, PublicParameters, br_digest, br_wf, issuer_genuine, issuer_wf,
    params_consistent, part_wf, pp_wf, pub_of, share_tag, token_valid,
};
use crate::state::{
    ConfirmedSet, ExposureEntry, ExposureTable, SpiritToken, TokenRegistry, confirmed_wf,
    registry_wf, table_has, table_wf,
};
use vstd::pervasive::unreached;

verus! {

/// Domain tag separating the pseudonym hash from every other use.
pub const PRF_DOMAIN_TAG: u64 = 0x0050_5246;

/// The pseudonym of one (secret, epoch) pair: the epoch's hash point
/// raised to the secret.  A function of its two arguments alone.
pub open spec fn prf_spec(k: Scalar, i: usize) -> G1G2 {
    g_scale_spec(hash_group_spec(le_bytes(i as u64), PRF_DOMAIN_TAG), k)
}

/// Derive the pseudonym for one epoch under a user secret.  Deterministic:
/// repeated calls on equal arguments return the identical element.
pub fn prf(k: &Scalar, i: usize) -> (r: G1G2)
    requires
        scalar_wf(*k),
    ensures
        r == prf_spec(*k, i),
        g_wf(r),
{
    let bytes = to_le_bytes(i as u64);
    let hashed = hash_with_domain_separation(&bytes, PRF_DOMAIN_TAG);
    g_scale(&hashed, k)
}

/// A user's credential holding: the public token and the identity scalar
/// it commits to, held by the user only.
#[derive(Clone, Copy, PartialEq, Eq, Structural, Debug)]
pub struct UserCredential {
    pub token: SpiritToken,
    pub id_u: Scalar,
}

/// A diagnosis report: the credential holding, the disclosure proof, and
/// the disclosed pseudonyms.
#[derive(Clone, Debug)]
pub struct TraceReport {
    pub credential: UserCredential,
    pub proof: Proof2PK,
    pub el_ids: Vec<G1G2>,
}

/// System setup: threshold parameters and issuer keys from the credential
/// scheme, one fresh random generator and scalar as auxiliary public
/// constants, and an empty token registry.
///
/// Inconsistent threshold parameters are a configuration error, ruled out
/// by the precondition; the sub-threshold knob is fixed at one below the
/// threshold and the auxiliary knob at one.
pub fn spirit_setup(t: usize, n: usize, num_issuers: usize) -> (r: (
    PublicParameters,
    Vec<Issuer>,
    G1G2,
    Scalar,
    TokenRegistry,
))
    requires
        params_consistent(num_issuers, n, t),
    ensures
        r.0.t == t,
        r.0.n == n,
        pp_wf(r.0),
        r.0.issuer_pub@.len() == num_issuers,
        r.1@.len() == num_issuers,
        forall|j: int|
            0 <= j < num_issuers ==> (#[trigger] r.1@[j]).index == j && issuer_wf(r.1@[j])
                && issuer_genuine(r.1@[j], r.0),
        g_wf(r.2),
        scalar_wf(r.3),
        r.4@ == Seq::<SpiritToken>::empty(),
        registry_wf(r.4),
{
    let (pp, issuers) = match tact::setup(num_issuers, n, t, t - 1, 1) {
        Ok(x) => x,
        Err(_) => unreached(),
    };
    let h = random_group();
    let hash_fp = random_scalar();
    let t_rgstr = TokenRegistry::new();
    (pp, issuers, h, hash_fp, t_rgstr)
}

/// A registration attempt succeeds exactly when the first `t` offered
/// issuers exist, are pairwise distinct, and genuinely belong to the
/// parameter set.
pub open spec fn registrable(issuers: Seq<Issuer>, pp: PublicParameters) -> bool {
    &&& issuers.len() >= pp.t
    &&& forall|i: int, j: int| 0 <= i < j < pp.t ==> issuers[i].index != issuers[j].index
    &&& forall|j: int| 0 <= j < pp.t ==> issuer_genuine(#[trigger] issuers[j], pp)
}

/// Threshold blind registration: derive a commitment to the identity,
/// collect one partial blind token from each of the first `t` issuers,
/// aggregate and unblind, self-check the result, and publish the token.
///
/// Succeeds exactly when the first `t` offered issuers are distinct and
/// genuine (threshold soundness: fewer than `t` valid partial tokens can
/// never yield a credential, and `t` of them, from any genuine distinct
/// subset, always do).  On failure nothing is published: the registry is
/// exactly as it was.  On success the registry gains the returned token
/// and nothing else; its size never decreases, and grows by exactly one
/// when the token is new.
pub fn spirit_register(
    id_u: Scalar,
    issuers: &Vec<Issuer>,
    pp: &PublicParameters,
    t_rgstr: &mut TokenRegistry,
) -> (r: Option<(SpiritToken, Scalar, TokenRegistry)>)
    requires
        scalar_wf(id_u),
        pp_wf(*pp),
        forall|k: int| 0 <= k < issuers@.len() ==> issuer_wf(#[trigger] issuers@[k]),
        registry_wf(*old(t_rgstr)),
    ensures
        registry_wf(*final(t_rgstr)),
        r is Some <==> registrable(issuers@, *pp),
        r is None ==> final(t_rgstr)@ == old(t_rgstr)@,
        final(t_rgstr)@.len() >= old(t_rgstr)@.len(),
        final(t_rgstr)@.len() <= old(t_rgstr)@.len() + 1,
        r matches Some(out) ==> {
            &&& out.1 == id_u
            &&& commitment_wf(out.0.cm)
            &&& g_wf(out.0.sig.el)
            &&& exists|rc: Scalar|
                scalar_wf(rc) && out.0.cm.value == tact::commit_spec(id_u, rc, *pp)
            &&& final(t_rgstr)@.contains(out.0)
            &&& (!old(t_rgstr)@.contains(out.0) ==> final(t_rgstr)@ == old(t_rgstr)@.push(out.0))
            &&& (old(t_rgstr)@.contains(out.0) ==> final(t_rgstr)@ == old(t_rgstr)@)
            &&& out.2@ == final(t_rgstr)@
        },
{
    let (strg, cm) = tact::register(&id_u, pp);
    let (blind_request, rnd) = tact::token_request(&strg, &cm, pp);
    let want: usize = if pp.t <= issuers.len() {
        pp.t
    } else {
        issuers.len()
    };
    let mut blind_tokens: Vec<PartialToken> = Vec::new();
    let mut j: usize = 0;
    while j < want
        invariant
            j <= want,
            want <= pp.t,
            want <= issuers@.len(),
            pp.t <= issuers@.len() ==> want == pp.t,
            issuers@.len() < pp.t ==> want == issuers@.len(),
            pp_wf(*pp),
            br_wf(blind_request),
            scalar_wf(rnd.r),
            *t_rgstr == *old(t_rgstr),
            registry_wf(*t_rgstr),
            forall|k: int| 0 <= k < issuers@.len() ==> issuer_wf(#[trigger] issuers@[k]),
            blind_tokens@.len() == j,
            forall|k: int|
                0 <= k < j ==> (#[trigger] blind_tokens@[k]).idx == issuers@[k].index
                    && blind_tokens@[k].idx < pp.issuer_pub@.len() && blind_tokens@[k].tag
                    == share_tag(pub_of(issuers@[k].sk), br_digest(blind_request)) && part_wf(
                    blind_tokens@[k],
                ),
        decreases want - j,
    {
        let bt = match tact::tissue(&blind_request, &issuers[j], pp) {
            Ok(b) => b,
            Err(_) => {
                proof {
                    assert(!issuer_genuine(issuers@[j as int], *pp));
                    assert(!registrable(issuers@, *pp));
                }
                return None;
            },
        };
        blind_tokens.push(bt);
        j = j + 1;
    }
    let ghost parts = blind_tokens@;
    let token = tact::aggregate_unblind(blind_tokens, &rnd, pp);
    let token_proof = tact::prove(&token, &rnd, pp);
    match tact::verify(&token, &token_proof, &blind_request, pp) {
        Ok(_) => {},
        Err(_) => {
            proof {
                if registrable(issuers@, *pp) {
                    assert(want == pp.t);
                    assert(token.parts@.len() >= pp.t);
                    assert forall|x: int|
                        0 <= x < token.parts@.len() implies (#[trigger] token.parts@[x]).idx
                        < pp.issuer_pub@.len() && token.parts@[x].tag == share_tag(
                        pp.issuer_pub@[token.parts@[x].idx as int],
                        br_digest(blind_request),
                    ) by {
                        assert(issuer_genuine(issuers@[x], *pp));
                    }
                    assert(token_valid(token, token_proof, blind_request, *pp));
                    assert(false);
                }
            }
            return None;
        },
    }
    proof {
        assert(token.parts@.len() == want);
        assert(want == pp.t);
        assert(issuers@.len() >= pp.t);
        let d = br_digest(blind_request);
        let spread = crate::group::fmul(d, tact::TAG_MUL);
        assert forall|x: int| 0 <= x < pp.t implies issuer_genuine(#[trigger] issuers@[x], *pp) by {
            assert(token.parts@[x].idx < pp.issuer_pub@.len());
            let p1 = pub_of(issuers@[x].sk);
            let p2 = pp.issuer_pub@[token.parts@[x].idx as int];
            assert(token.parts@[x].tag == share_tag(p1, d));
            assert(token.parts@[x].tag == share_tag(p2, d));
            assert(f_wf(p1));
            assert(f_wf(p2));
            assert(p1 + spread < 0x1_0000_0000_0000_0000);
            assert(p2 + spread < 0x1_0000_0000_0000_0000);
            assert(p1 == p2);
            assert(issuers@[x].index == token.parts@[x].idx);
        }
        assert forall|x: int, y: int|
            0 <= x < y < pp.t implies issuers@[x].index != issuers@[y].index by {
            assert(token.parts@[x].idx != token.parts@[y].idx);
        }
        assert(registrable(issuers@, *pp));
    }
    let published = SpiritToken { cm, sig: token.s };
    proof {
        assert(scalar_wf(strg.rc) && published.cm.value == tact::commit_spec(id_u, strg.rc, *pp));
    }
    t_rgstr.insert(published);
    let snap = t_rgstr.snapshot();
    Some((published, id_u, snap))
}

/// Pseudonym broadcast: derive the epoch's pseudonym from the user
/// secret, draw a fresh random salt, and record the pair locally.  The
/// pseudonym depends on the secret and the epoch alone; re-broadcasting
/// an epoch overwrites its salt and nothing else.  Returns a snapshot of
/// the updated table.
pub fn spirit_broadcast(i: usize, prv: &Scalar, t_el: &mut ExposureTable) -> (r: ExposureTable)
    requires
        scalar_wf(*prv),
        table_wf(*old(t_el)),
    ensures
        table_wf(*final(t_el)),
        table_has(final(t_el)@, prf_spec(*prv, i)),
        forall|e: G1G2|
            table_has(final(t_el)@, e) <==> table_has(old(t_el)@, e) || e == prf_spec(*prv, i),
        forall|k: int|
            0 <= k < old(t_el)@.len() && old(t_el)@[k].el_id != prf_spec(*prv, i)
                ==> final(t_el)@[k] == old(t_el)@[k],
        !table_has(old(t_el)@, prf_spec(*prv, i)) ==> exists|s: Scalar|
            final(t_el)@ == old(t_el)@.push(ExposureEntry { el_id: prf_spec(*prv, i), salt: s }),
        table_has(old(t_el)@, prf_spec(*prv, i)) ==> final(t_el)@.len() == old(t_el)@.len(),
        r@ == final(t_el)@,
{
    let el_id = prf(prv, i);
    let es_i = random_scalar();
    t_el.record(el_id, es_i);
    proof {
        if !table_has(old(t_el)@, prf_spec(*prv, i)) {
            assert(t_el@ == old(t_el)@.push(ExposureEntry { el_id: prf_spec(*prv, i), salt: es_i }));
        }
    }
    t_el.snapshot()
}

/// What diagnosis packages for a credential, a secret and the contact
/// epochs: the recomputed pseudonym of every epoch, in order, under one
/// batched disclosure proof bound to the token's commitment and
/// signature component.
pub open spec fn report_for(
    ppu: UserCredential,
    prv: Scalar,
    cp: Seq<usize>,
    rep: TraceReport,
) -> bool {
    &&& rep.credential == ppu
    &&& rep.el_ids@.len() == cp.len()
    &&& forall|j: int| 0 <= j < cp.len() ==> rep.el_ids@[j] == prf_spec(prv, #[trigger] cp[j])
    &&& rep.proof == zk_proof_spec(ppu.token.cm.value, ppu.token.sig.el, rep.el_ids@)
}

/// Diagnosis: recompute the pseudonym of every contact epoch from the
/// user secret and build one disclosure proof binding the token's
/// commitment and signature component to the whole disclosed set.  The
/// proof construction is total here, so a report is always produced.
pub fn spirit_diagnosis(ppu: UserCredential, prv: &Scalar, cp: &Vec<usize>) -> (r: Option<
    TraceReport,
>)
    requires
        scalar_wf(*prv),
        commitment_wf(ppu.token.cm),
        g_wf(ppu.token.sig.el),
    ensures
        r is Some,
        r matches Some(rep) ==> report_for(ppu, *prv, cp@, rep),
{
    let mut els: Vec<G1G2> = Vec::new();
    let mut j: usize = 0;
    while j < cp.len()
        invariant
            j <= cp@.len(),
            els@.len() == j,
            scalar_wf(*prv),
            forall|x: int|
                0 <= x < j ==> #[trigger] els@[x] == prf_spec(*prv, cp@[x]) && g_wf(els@[x]),
        decreases cp@.len() - j,
    {
        els.push(prf(prv, cp[j]));
        j = j + 1;
    }
    let pi_r = Proof2PK::zk_proof(&ppu.token.cm.value, &ppu.token.sig.el, &els);
    Some(TraceReport { credential: ppu, proof: pi_r, el_ids: els })
}

/// A report is accepted exactly when its token is registered and its
/// disclosure proof verifies against that token's commitment.  The two
/// causes of rejection are deliberately not distinguished in the result.
pub open spec fn accept_spec(reg: Seq<SpiritToken>, tr: TraceReport) -> bool {
    reg.contains(tr.credential.token) && zk_verify_spec(tr.credential.token.cm.value, tr.proof)
}

/// Report verification: check registry membership of the token and the
/// disclosure proof against its commitment.  On accept, every disclosed
/// pseudonym joins the confirmed-exposed set; on reject the set is left
/// exactly as it was.  Returns a snapshot of the updated set and the
/// accept bit.
pub fn spirit_verify(tr: TraceReport, t_rgstr: &TokenRegistry, cp: &mut ConfirmedSet) -> (r: (
    ConfirmedSet,
    bool,
))
    requires
        commitment_wf(tr.credential.token.cm),
        confirmed_wf(*old(cp)),
    ensures
        r.1 == accept_spec(t_rgstr@, tr),
        confirmed_wf(*final(cp)),
        !r.1 ==> final(cp)@ == old(cp)@,
        r.1 ==> forall|e: G1G2|
            final(cp)@.contains(e) <==> old(cp)@.contains(e) || tr.el_ids@.contains(e),
        final(cp)@.len() >= old(cp)@.len(),
        final(cp)@.take(old(cp)@.len() as int) == old(cp)@,
        r.0@ == final(cp)@,
{
    let token = tr.credential.token;
    let in_registry = t_rgstr.contains(&token);
    let proof_ok = Proof2PK::zk_verify(&token.cm.value, &tr.proof);
    let bit = in_registry && proof_ok;
    if bit {
        let ghost cp0 = cp@;
        let mut k: usize = 0;
        while k < tr.el_ids.len()
            invariant
                k <= tr.el_ids@.len(),
                confirmed_wf(*cp),
                cp0.len() <= cp@.len(),
                cp@.take(cp0.len() as int) == cp0,
                forall|e: G1G2|
                    #[trigger] cp@.contains(e) <==> cp0.contains(e) || (exists|x: int|
                        0 <= x < k && tr.el_ids@[x] == e),
            decreases tr.el_ids@.len() - k,
        {
            let ghost prev = cp@;
            cp.insert(tr.el_ids[k]);
            proof {
                assert(cp@.take(cp0.len() as int) =~= cp0);
                assert forall|e: G1G2|
                    #[trigger] cp@.contains(e) <==> cp0.contains(e) || (exists|x: int|
                        0 <= x < k + 1 && tr.el_ids@[x] == e) by {
                    if cp@.contains(e) {
                        if !prev.contains(e) {
                            assert(e == tr.el_ids@[k as int]);
                            assert(0 <= k < k + 1 && tr.el_ids@[k as int] == e);
                        }
                    }
                    if cp0.contains(e) {
                        assert(prev.contains(e));
                        assert(cp@.contains(e));
                    }
                    if exists|x: int| 0 <= x < k + 1 && tr.el_ids@[x] == e {
                        let x = choose|x: int| 0 <= x < k + 1 && tr.el_ids@[x] == e;
                        if x < k {
                            assert(prev.contains(e));
                            assert(cp@.contains(e));
                        } else {
                            assert(e == tr.el_ids@[k as int]);
                            assert(cp@.contains(e));
                        }
                    }
                }
            }
            k = k + 1;
        }
        proof {
            assert forall|e: G1G2|
                cp@.contains(e) <==> old(cp)@.contains(e) || tr.el_ids@.contains(e) by {
                if tr.el_ids@.contains(e) {
                    let x = choose|x: int|
                        0 <= x < tr.el_ids@.len() && tr.el_ids@[x] == e;
                    assert(cp@.contains(e));
                }
            }
        }
    }
    proof {
        assert(cp@.take(old(cp)@.len() as int) =~= old(cp)@);
    }
    (cp.snapshot(), bit)
}

/// Number of the confirmed set's pseudonyms that appear in an exposure
/// table; the sets involved hold no duplicates, so this is the size of
/// their intersection.
pub open spec fn match_count(cf: Seq<G1G2>, tbl: Seq<ExposureEntry>) -> nat
    decreases cf.len(),
{
    if cf.len() == 0 {
        0
    } else {
        match_count(cf.drop_last(), tbl) + (if table_has(tbl, cf.last()) {
            1nat
        } else {
            0nat
        })
    }
}

/// Exposure tracing: count the confirmed-exposed pseudonyms that the
/// caller's own exposure table holds, and alarm exactly when the count
/// reaches the exposure limit.  A limit of zero always alarms.
pub fn spirit_trace(cf: &ConfirmedSet, t_el: &ExposureTable, exposure_limit: usize) -> (r: (
    usize,
    bool,
))
    ensures
        r.0 == match_count(cf@, t_el@),
        r.1 == (r.0 >= exposure_limit),
        r.0 <= cf@.len(),
{
    let mut int_cnt: usize = 0;
    let mut i: usize = 0;
    while i < cf.entries.len()
        invariant
            i <= cf@.len(),
            int_cnt <= i,
            int_cnt == match_count(cf@.take(i as int), t_el@),
        decreases cf@.len() - i,
    {
        proof {
            assert(cf@.take(i + 1).drop_last() =~= cf@.take(i as int));
            assert(cf@.take(i + 1).last() == cf@[i as int]);
        }
        if t_el.has(&cf.entries[i]) {
            int_cnt = int_cnt + 1;
        }
        i = i + 1;
    }
    proof {
        assert(cf@.take(cf@.len() as int) =~= cf@);
    }
    let alarm_bit = int_cnt >= exposure_limit;
    (int_cnt, alarm_bit)
}

/// Pseudonym determinism: two pseudonyms derived from one secret and one
/// epoch are identical, however often the derivation is repeated.
pub proof fn lemma_prf_deterministic(k: Scalar, i: usize, r1: G1G2, r2: G1G2)
    requires
        r1 == prf_spec(k, i),
        r2 == prf_spec(k, i),
    ensures
        r1 == r2,
{
}

/// Verification soundness: a report whose token was never registered is
/// rejected, whatever its proof says.
pub proof fn lemma_verification_soundness(reg: Seq<SpiritToken>, tr: TraceReport)
    requires
        !reg.contains(tr.credential.token),
    ensures
        !accept_spec(reg, tr),
{
}

/// Verification completeness: a report that diagnosis built over a
/// registered credential is accepted.
pub proof fn lemma_verification_completeness(
    reg: Seq<SpiritToken>,
    ppu: UserCredential,
    prv: Scalar,
    cp: Seq<usize>,
    rep: TraceReport,
)
    requires
        report_for(ppu, prv, cp, rep),
        reg.contains(ppu.token),
    ensures
        accept_spec(reg, rep),
{
}

/// Trace monotonicity: raising the exposure limit never raises an alarm
/// that the lower limit would not have raised.
pub proof fn lemma_trace_monotone(count: nat, low_limit: usize, high_limit: usize)
    requires
        low_limit <= high_limit,
        count >= high_limit,
    ensures
        count >= low_limit,
{
}

} // verus!
