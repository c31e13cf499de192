//! Threshold anonymous-credential tokens.
//!
//! A credential becomes valid only once at least `t` of `n` issuers have
//! each produced a partial blind token over the same blind request; the
//! user aggregates and unblinds them, then self-checks the result with a
//! token proof.  No single issuer can mint a credential alone.

use vstd::prelude::*;
use crate::group::{
    G1G2, Scalar, f_wf, fadd, fmul, g_wf, scalar_wf, field_add, field_mul, g_add, g_add_spec,
    g_scale, g_scale_spec, random_scalar, FIELD_MOD, HASH_MUL,
};
use crate::pedersen::{Commitment, commitment_wf};

verus! {

/// Base used to derive an issuer's public share from its secret share.
pub const PUB_BASE: u64 = 0x0001_0003;

/// Multiplier spreading a request digest into a signing tag.
pub const TAG_MUL: u64 = 0x0005_000B;

/// Multiplier of the second unblinded-signature coordinate.
pub const UNBLIND_MUL: u64 = 0x0003_0005;

/// Global public parameters of the credential scheme.
pub struct PublicParameters {
    /// Threshold: partial tokens required for a valid credential.
    pub t: usize,
    /// Share count the threshold is taken out of.
    pub n: usize,
    /// Sub-threshold knob of the scheme; carried, not interpreted.
    pub t_sub: usize,
    /// Auxiliary knob of the scheme; carried, not interpreted.
    pub aux: usize,
    /// First commitment generator.
    pub g: G1G2,
    /// Second commitment generator, also used for blinding.
    pub h: G1G2,
    /// Public share of each issuer, by issuer index.
    pub issuer_pub: Vec<u64>,
}

pub open spec fn pp_wf(pp: PublicParameters) -> bool {
    &&& pp.t >= 1
    &&& pp.t <= pp.n
    &&& g_wf(pp.g)
    &&& g_wf(pp.h)
    &&& forall|j: int| 0 <= j < pp.issuer_pub@.len() ==> f_wf(#[trigger] pp.issuer_pub@[j])
}

/// One of the `n` issuing parties, holding its secret key share.
#[derive(Clone, Copy, PartialEq, Eq, Structural, Debug)]
pub struct Issuer {
    pub index: usize,
    pub sk: Scalar,
}

pub open spec fn issuer_wf(iss: Issuer) -> bool {
    scalar_wf(iss.sk)
}

/// The public share an issuer secret gives rise to.
pub open spec fn pub_of(sk: Scalar) -> u64 {
    fmul(sk.v, PUB_BASE)
}

pub fn pub_share(sk: &Scalar) -> (r: u64)
    requires
        scalar_wf(*sk),
    ensures
        r == pub_of(*sk),
        f_wf(r),
{
    field_mul(sk.v, PUB_BASE)
}

/// An issuer genuinely belongs to a parameter set when its index is on
/// the roster and its secret share matches the published public share.
pub open spec fn issuer_genuine(iss: Issuer, pp: PublicParameters) -> bool {
    &&& scalar_wf(iss.sk)
    &&& iss.index < pp.issuer_pub@.len()
    &&& pp.issuer_pub@[iss.index as int] == pub_of(iss.sk)
}

/// Inconsistent threshold parameters at setup.
#[derive(Clone, Copy, PartialEq, Eq, Structural, Debug)]
pub enum SetupError {
    InvalidThreshold,
}

/// An issuance call that cannot be served.
#[derive(Clone, Copy, PartialEq, Eq, Structural, Debug)]
pub enum IssueError {
    UnknownIssuer,
}

/// A token that fails its self-check.
#[derive(Clone, Copy, PartialEq, Eq, Structural, Debug)]
pub enum VerifyError {
    InvalidToken,
}

/// Whether a parameter choice is consistent: a threshold of at least one,
/// taken out of at least as many shares, with enough issuers to reach it.
pub open spec fn params_consistent(num_issuers: usize, n: usize, t: usize) -> bool {
    1 <= t && t <= n && t <= num_issuers
}

/// Generate public parameters and the issuer set, or fail on an
/// inconsistent threshold configuration.
pub fn setup(num_issuers: usize, n: usize, t: usize, t_sub: usize, aux: usize) -> (r: Result<
    (PublicParameters, Vec<Issuer>),
    SetupError,
>)
    ensures
        r is Ok <==> params_consistent(num_issuers, n, t),
        r matches Ok(out) ==> {
            &&& out.0.t == t
            &&& out.0.n == n
            &&& out.0.t_sub == t_sub
            &&& out.0.aux == aux
            &&& pp_wf(out.0)
            &&& out.0.issuer_pub@.len() == num_issuers
            &&& out.1@.len() == num_issuers
            &&& forall|j: int|
                0 <= j < num_issuers ==> (#[trigger] out.1@[j]).index == j && issuer_wf(out.1@[j])
                    && issuer_genuine(out.1@[j], out.0)
        },
{
    if t < 1 || t > n || num_issuers < t {
        return Err(SetupError::InvalidThreshold);
    }
    let g = G1G2 { a: 2, b: 3 };
    let h = G1G2 { a: 5, b: 7 };
    let mut issuers: Vec<Issuer> = Vec::new();
    let mut pubs: Vec<u64> = Vec::new();
    let mut j: usize = 0;
    while j < num_issuers
        invariant
            j <= num_issuers,
            issuers@.len() == j,
            pubs@.len() == j,
            forall|k: int| 0 <= k < j ==> f_wf(#[trigger] pubs@[k]),
            forall|k: int|
                0 <= k < j ==> (#[trigger] issuers@[k]).index == k && issuer_wf(issuers@[k])
                    && issuers@[k].index < pubs@.len() && pubs@[issuers@[k].index as int] == pub_of(
                    issuers@[k].sk,
                ),
        decreases num_issuers - j,
    {
        let sk = random_scalar();
        pubs.push(pub_share(&sk));
        issuers.push(Issuer { index: j, sk });
        j = j + 1;
    }
    let pp = PublicParameters { t, n, t_sub, aux, g, h, issuer_pub: pubs };
    Ok((pp, issuers))
}

/// Per-user registration state: the identity and the commitment
/// randomness, both held by the user only.
pub struct RegState {
    pub id: Scalar,
    pub rc: Scalar,
}

/// The Pedersen commitment the scheme makes to an identity.
pub open spec fn commit_spec(id: Scalar, rc: Scalar, pp: PublicParameters) -> G1G2 {
    g_add_spec(g_scale_spec(pp.g, id), g_scale_spec(pp.h, rc))
}

/// Derive the registration state and the identity commitment.
pub fn register(id_u: &Scalar, pp: &PublicParameters) -> (r: (RegState, Commitment))
    requires
        scalar_wf(*id_u),
        pp_wf(*pp),
    ensures
        r.0.id == *id_u,
        scalar_wf(r.0.rc),
        r.1.value == commit_spec(*id_u, r.0.rc, *pp),
        commitment_wf(r.1),
{
    let rc = random_scalar();
    let cm_value = g_add(&g_scale(&pp.g, id_u), &g_scale(&pp.h, &rc));
    (RegState { id: *id_u, rc }, Commitment { value: cm_value })
}

/// A blind token request: the blinded commitment and the commitment it
/// was built over.
pub struct BlindRequest {
    pub blinded: G1G2,
    pub cm: Commitment,
}

pub open spec fn br_wf(br: BlindRequest) -> bool {
    g_wf(br.blinded) && commitment_wf(br.cm)
}

/// The blinding randomizer, held by the user until unblinding.
pub struct Rand {
    pub r: Scalar,
}

/// What a blind request looks like over a commitment and a randomizer.
pub open spec fn blind_spec(cm: Commitment, r: Scalar, pp: PublicParameters) -> G1G2 {
    g_add_spec(cm.value, g_scale_spec(pp.h, r))
}

/// Build a blind request and a fresh blinding randomizer.
pub fn token_request(strg: &RegState, cm: &Commitment, pp: &PublicParameters) -> (r: (
    BlindRequest,
    Rand,
))
    requires
        pp_wf(*pp),
        commitment_wf(*cm),
    ensures
        r.0.cm == *cm,
        scalar_wf(r.1.r),
        r.0.blinded == blind_spec(*cm, r.1.r, *pp),
        br_wf(r.0),
{
    let rb = random_scalar();
    let blinded = g_add(&cm.value, &g_scale(&pp.h, &rb));
    (BlindRequest { blinded, cm: *cm }, Rand { r: rb })
}

/// Digest of a blind request, the message each issuer signs over.
pub open spec fn br_digest(br: BlindRequest) -> u64 {
    fadd(
        fmul(fadd(fmul(fadd(fmul(br.blinded.a, HASH_MUL), br.blinded.b), HASH_MUL), br.cm.value.a), HASH_MUL),
        br.cm.value.b,
    )
}

pub fn br_digest_exec(br: &BlindRequest) -> (r: u64)
    requires
        br_wf(*br),
    ensures
        r == br_digest(*br),
        f_wf(r),
{
    let d1 = field_add(field_mul(br.blinded.a, HASH_MUL), br.blinded.b);
    let d2 = field_add(field_mul(d1, HASH_MUL), br.cm.value.a);
    field_add(field_mul(d2, HASH_MUL), br.cm.value.b)
}

/// The signing tag a public share yields over a request digest.  The tag
/// determines the share: equal tags over one digest mean equal shares.
pub open spec fn share_tag(p: u64, digest: u64) -> u64 {
    (p + fmul(digest, TAG_MUL)) as u64
}

pub fn share_tag_exec(p: u64, digest: u64) -> (r: u64)
    requires
        f_wf(p),
        f_wf(digest),
    ensures
        r == share_tag(p, digest),
        r < 2 * FIELD_MOD,
{
    p + field_mul(digest, TAG_MUL)
}

/// One partial blind token, from one issuer.
#[derive(Clone, Copy, PartialEq, Eq, Structural, Debug)]
pub struct PartialToken {
    pub idx: usize,
    pub tag: u64,
}

pub open spec fn part_wf(p: PartialToken) -> bool {
    p.tag < 2 * FIELD_MOD
}

/// Issue one partial blind token over a blind request.  The issuer signs
/// with its secret share; the share itself never leaves the call.
pub fn tissue(br: &BlindRequest, issuer: &Issuer, pp: &PublicParameters) -> (r: Result<
    PartialToken,
    IssueError,
>)
    requires
        br_wf(*br),
        issuer_wf(*issuer),
        pp_wf(*pp),
    ensures
        r is Ok <==> issuer.index < pp.issuer_pub@.len(),
        r matches Ok(p) ==> p == (PartialToken {
            idx: issuer.index,
            tag: share_tag(pub_of(issuer.sk), br_digest(*br)),
        }) && part_wf(p),
{
    if issuer.index < pp.issuer_pub.len() {
        let tag = share_tag_exec(pub_share(&issuer.sk), br_digest_exec(br));
        Ok(PartialToken { idx: issuer.index, tag })
    } else {
        Err(IssueError::UnknownIssuer)
    }
}

/// The signature component of a token.
#[derive(Clone, Copy, PartialEq, Eq, Structural, Debug)]
pub struct Signature {
    pub el: G1G2,
}

/// An aggregated, unblinded credential token: the signature and the
/// partial tokens it was aggregated from.
pub struct Token {
    pub s: Signature,
    pub parts: Vec<PartialToken>,
}

pub open spec fn token_wf(tok: Token) -> bool {
    &&& g_wf(tok.s.el)
    &&& forall|k: int| 0 <= k < tok.parts@.len() ==> part_wf(#[trigger] tok.parts@[k])
}

/// Field sum of the tags of a sequence of partial tokens.
pub open spec fn parts_sum(s: Seq<PartialToken>) -> u64
    decreases s.len(),
{
    if s.len() == 0 {
        0
    } else {
        fadd(parts_sum(s.drop_last()), s.last().tag)
    }
}

/// The unblinded signature element a tag sum and a randomizer yield.
pub open spec fn unblind_spec(sum: u64, r: Scalar) -> G1G2 {
    G1G2 { a: fadd(sum, r.v), b: fadd(fmul(sum, UNBLIND_MUL), r.v) }
}

/// Aggregate partial blind tokens and unblind with the randomizer.
pub fn aggregate_unblind(blind_tokens: Vec<PartialToken>, rand: &Rand, pp: &PublicParameters) -> (tok:
    Token)
    requires
        forall|k: int| 0 <= k < blind_tokens@.len() ==> part_wf(#[trigger] blind_tokens@[k]),
        scalar_wf(rand.r),
    ensures
        tok.parts@ == blind_tokens@,
        tok.s.el == unblind_spec(parts_sum(blind_tokens@), rand.r),
        token_wf(tok),
{
    let mut sum: u64 = 0;
    let mut k: usize = 0;
    while k < blind_tokens.len()
        invariant
            k <= blind_tokens@.len(),
            f_wf(sum),
            sum == parts_sum(blind_tokens@.take(k as int)),
            forall|x: int| 0 <= x < blind_tokens@.len() ==> part_wf(#[trigger] blind_tokens@[x]),
        decreases blind_tokens@.len() - k,
    {
        proof {
            assert(blind_tokens@.take(k + 1).drop_last() =~= blind_tokens@.take(k as int));
            assert(blind_tokens@.take(k + 1).last() == blind_tokens@[k as int]);
        }
        sum = (sum + blind_tokens[k].tag) % FIELD_MOD;
        k = k + 1;
    }
    proof {
        assert(blind_tokens@.take(blind_tokens@.len() as int) =~= blind_tokens@);
    }
    let el = G1G2 { a: field_add(sum, rand.r.v), b: field_add(field_mul(sum, UNBLIND_MUL), rand.r.v) };
    Token { s: Signature { el }, parts: blind_tokens }
}

/// The self-check proof over a token: the unblinding mask.
pub struct TokenProof {
    pub mask: Scalar,
}

/// Build the token proof from the randomizer the token was unblinded with.
pub fn prove(token: &Token, rand: &Rand, pp: &PublicParameters) -> (pr: TokenProof)
    ensures
        pr.mask == rand.r,
{
    TokenProof { mask: rand.r }
}

/// A token is valid for a blind request when it aggregates at least `t`
/// partial tokens from pairwise-distinct rostered issuers, every tag is
/// the one that issuer's public share yields over the request digest, and
/// the signature element matches the unblinded tag sum.
pub open spec fn token_valid(tok: Token, pr: TokenProof, br: BlindRequest, pp: PublicParameters) -> bool {
    &&& tok.parts@.len() >= pp.t
    &&& forall|i: int, j: int|
        0 <= i < j < tok.parts@.len() ==> tok.parts@[i].idx != tok.parts@[j].idx
    &&& forall|i: int|
        0 <= i < tok.parts@.len() ==> (#[trigger] tok.parts@[i]).idx < pp.issuer_pub@.len()
            && tok.parts@[i].tag == share_tag(
            pp.issuer_pub@[tok.parts@[i].idx as int],
            br_digest(br),
        )
    &&& tok.s.el == unblind_spec(parts_sum(tok.parts@), pr.mask)
}

/// Self-check an aggregated token against the blind request it answers.
pub fn verify(token: &Token, proof: &TokenProof, br: &BlindRequest, pp: &PublicParameters) -> (r:
    Result<(), VerifyError>)
    requires
        token_wf(*token),
        scalar_wf(proof.mask),
        br_wf(*br),
        pp_wf(*pp),
    ensures
        r is Ok <==> token_valid(*token, *proof, *br, *pp),
{
    if token.parts.len() < pp.t {
        return Err(VerifyError::InvalidToken);
    }
    let d = br_digest_exec(br);
    let mut i: usize = 0;
    while i < token.parts.len()
        invariant
            i <= token.parts@.len(),
            forall|x: int, y: int| 0 <= x < y < token.parts@.len() && x < i ==> token.parts@[x].idx
                != token.parts@[y].idx,
        decreases token.parts@.len() - i,
    {
        let mut j: usize = i + 1;
        while j < token.parts.len()
            invariant
                i < j || j == i + 1,
                i + 1 <= j <= token.parts@.len(),
                i < token.parts@.len(),
                forall|y: int| i < y < j ==> token.parts@[i as int].idx != token.parts@[y].idx,
            decreases token.parts@.len() - j,
        {
            if token.parts[i].idx == token.parts[j].idx {
                return Err(VerifyError::InvalidToken);
            }
            j = j + 1;
        }
        i = i + 1;
    }
    let mut i: usize = 0;
    while i < token.parts.len()
        invariant
            i <= token.parts@.len(),
            d == br_digest(*br),
            f_wf(d),
            pp_wf(*pp),
            token_wf(*token),
            forall|x: int|
                0 <= x < i ==> (#[trigger] token.parts@[x]).idx < pp.issuer_pub@.len()
                    && token.parts@[x].tag == share_tag(
                    pp.issuer_pub@[token.parts@[x].idx as int],
                    br_digest(*br),
                ),
        decreases token.parts@.len() - i,
    {
        let p = token.parts[i];
        if p.idx >= pp.issuer_pub.len() {
            return Err(VerifyError::InvalidToken);
        }
        let expect = share_tag_exec(pp.issuer_pub[p.idx], d);
        if p.tag != expect {
            return Err(VerifyError::InvalidToken);
        }
        i = i + 1;
    }
    let mut sum: u64 = 0;
    let mut k: usize = 0;
    while k < token.parts.len()
        invariant
            k <= token.parts@.len(),
            f_wf(sum),
            sum == parts_sum(token.parts@.take(k as int)),
            token_wf(*token),
        decreases token.parts@.len() - k,
    {
        proof {
            assert(token.parts@.take(k + 1).drop_last() =~= token.parts@.take(k as int));
            assert(token.parts@.take(k + 1).last() == token.parts@[k as int]);
        }
        sum = (sum + token.parts[k].tag) % FIELD_MOD;
        k = k + 1;
    }
    proof {
        assert(token.parts@.take(token.parts@.len() as int) =~= token.parts@);
    }
    let expect_el = G1G2 {
        a: field_add(sum, proof.mask.v),
        b: field_add(field_mul(sum, UNBLIND_MUL), proof.mask.v),
    };
    if token.s.el == expect_el {
        Ok(())
    } else {
        Err(VerifyError::InvalidToken)
    }
}

} // verus!
