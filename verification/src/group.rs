//! Scalar field and pairing-group model.
//!
//! The protocol is specified over an abstract pairing group with a scalar
//! field; this module instantiates both over arithmetic modulo a 32-bit
//! prime, which keeps every operation exactly specifiable.  A group element
//! carries two coordinates (one per source group of the pairing), and the
//! hash-to-group map is a domain-separated multiplicative fold over bytes.

use vstd::prelude::*;
use rand::RngCore;

verus! {

/// Modulus of the scalar field: the prime 2^32 - 5.
pub const FIELD_MOD: u64 = 0xFFFF_FFFB;

/// Field addition, as a mathematical function.
pub open spec fn fadd(a: u64, b: u64) -> u64 {
    ((a + b) % (FIELD_MOD as int)) as u64
}

/// Field multiplication, as a mathematical function.
pub open spec fn fmul(a: u64, b: u64) -> u64 {
    ((a * b) % (FIELD_MOD as int)) as u64
}

/// A residue is well-formed when it is reduced modulo the field prime.
pub open spec fn f_wf(x: u64) -> bool {
    x < FIELD_MOD
}

pub fn field_add(a: u64, b: u64) -> (r: u64)
    requires
        f_wf(a),
        f_wf(b),
    ensures
        r == fadd(a, b),
        f_wf(r),
{
    (a + b) % FIELD_MOD
}

pub fn field_mul(a: u64, b: u64) -> (r: u64)
    requires
        f_wf(a),
        f_wf(b),
    ensures
        r == fmul(a, b),
        f_wf(r),
{
    proof {
        assert((a as int) * (b as int) < 0x1_0000_0000_0000_0000) by (nonlinear_arith)
            requires
                a < FIELD_MOD,
                b < FIELD_MOD,
        ;
    }
    (a * b) % FIELD_MOD
}

/// A scalar of the field: a user secret, an identity, a salt.
#[derive(Clone, Copy, PartialEq, Eq, Structural, Debug)]
pub struct Scalar {
    pub v: u64,
}

pub open spec fn scalar_wf(s: Scalar) -> bool {
    f_wf(s.v)
}

impl Scalar {
    /// Reduce an arbitrary machine word into the field.
    pub fn from_u64(v: u64) -> (r: Scalar)
        ensures
            r.v == v % FIELD_MOD,
            scalar_wf(r),
    {
        Scalar { v: v % FIELD_MOD }
    }
}

/// A pairing-group element, one coordinate per source group.
#[derive(Clone, Copy, PartialEq, Eq, Structural, Debug)]
pub struct G1G2 {
    pub a: u64,
    pub b: u64,
}

pub open spec fn g_wf(g: G1G2) -> bool {
    f_wf(g.a) && f_wf(g.b)
}

/// Group addition, coordinatewise.
pub open spec fn g_add_spec(x: G1G2, y: G1G2) -> G1G2 {
    G1G2 { a: fadd(x.a, y.a), b: fadd(x.b, y.b) }
}

pub fn g_add(x: &G1G2, y: &G1G2) -> (r: G1G2)
    requires
        g_wf(*x),
        g_wf(*y),
    ensures
        r == g_add_spec(*x, *y),
        g_wf(r),
{
    G1G2 { a: field_add(x.a, y.a), b: field_add(x.b, y.b) }
}

/// Multiplication of a group element by a scalar.
pub open spec fn g_scale_spec(g: G1G2, k: Scalar) -> G1G2 {
    G1G2 { a: fmul(g.a, k.v), b: fmul(g.b, k.v) }
}

pub fn g_scale(g: &G1G2, k: &Scalar) -> (r: G1G2)
    requires
        g_wf(*g),
        scalar_wf(*k),
    ensures
        r == g_scale_spec(*g, *k),
        g_wf(r),
{
    G1G2 { a: field_mul(g.a, k.v), b: field_mul(g.b, k.v) }
}

/// Multiplier of the byte-fold hash (the FNV-1 prime).
pub const HASH_MUL: u64 = 0x0100_0193;

/// Seed offset of the first hash coordinate.
pub const DOMAIN_SEED_A: u64 = 0x0123_4567;

/// Seed offset of the second hash coordinate.
pub const DOMAIN_SEED_B: u64 = 0x19AB_CDEF;

/// One step of the byte fold: absorb one byte into the accumulator.
pub open spec fn hash_step(h: u64, byte: u8) -> u64 {
    fadd(fmul(h, HASH_MUL), byte as u64)
}

/// The byte fold itself, absorbing a byte string left to right.
pub open spec fn hash_fold(h: u64, s: Seq<u8>) -> u64
    decreases s.len(),
{
    if s.len() == 0 {
        h
    } else {
        hash_step(hash_fold(h, s.drop_last()), s.last())
    }
}

/// Domain-separated hash of a byte string to a group element.
pub open spec fn hash_group_spec(data: Seq<u8>, domain_tag: u64) -> G1G2 {
    G1G2 {
        a: hash_fold(fadd(domain_tag, DOMAIN_SEED_A), data),
        b: hash_fold(fadd(domain_tag, DOMAIN_SEED_B), data),
    }
}

/// Hash a byte string into the group under a numeric domain tag, so that
/// uses of the hash for different purposes cannot collide.
pub fn hash_with_domain_separation(data: &Vec<u8>, domain_tag: u64) -> (r: G1G2)
    requires
        f_wf(domain_tag),
    ensures
        r == hash_group_spec(data@, domain_tag),
        g_wf(r),
{
    let mut ha: u64 = field_add(domain_tag, DOMAIN_SEED_A);
    let mut hb: u64 = field_add(domain_tag, DOMAIN_SEED_B);
    let mut i: usize = 0;
    while i < data.len()
        invariant
            i <= data@.len(),
            f_wf(ha),
            f_wf(hb),
            ha == hash_fold(fadd(domain_tag, DOMAIN_SEED_A), data@.take(i as int)),
            hb == hash_fold(fadd(domain_tag, DOMAIN_SEED_B), data@.take(i as int)),
        decreases data@.len() - i,
    {
        proof {
            assert(data@.take(i + 1).drop_last() =~= data@.take(i as int));
            assert(data@.take(i + 1).last() == data@[i as int]);
        }
        ha = field_add(field_mul(ha, HASH_MUL), data[i] as u64);
        hb = field_add(field_mul(hb, HASH_MUL), data[i] as u64);
        i = i + 1;
    }
    proof {
        assert(data@.take(data@.len() as int) =~= data@);
    }
    G1G2 { a: ha, b: hb }
}

/// Byte `j` of the little-endian encoding of a machine word.
pub open spec fn le_byte(v: u64, j: int) -> u8 {
    ((v >> ((8 * j) as u64)) & 0xff) as u8
}

/// The full eight-byte little-endian encoding.
pub open spec fn le_bytes(v: u64) -> Seq<u8> {
    Seq::new(8, |j: int| le_byte(v, j))
}

/// Encode a machine word as its eight little-endian bytes.
pub fn to_le_bytes(v: u64) -> (r: Vec<u8>)
    ensures
        r@ == le_bytes(v),
{
    let mut r: Vec<u8> = Vec::new();
    let mut j: usize = 0;
    while j < 8
        invariant
            j <= 8,
            r@.len() == j,
            forall|k: int| 0 <= k < j ==> r@[k] == le_byte(v, k),
        decreases 8 - j,
    {
        let sh: u64 = 8 * (j as u64);
        let byte_val: u64 = (v >> sh) & 0xff;
        r.push(byte_val as u8);
        j = j + 1;
    }
    proof {
        assert(r@ =~= le_bytes(v));
    }
    r
}

/// Relies on rand's OsRng: a machine word drawn from the operating
/// system's cryptographically secure random source.  Nothing is promised
/// of the value.
#[verifier::external_body]
fn os_random_u64() -> u64 {
    rand::rngs::OsRng.next_u64()
}

/// A fresh random scalar; only well-formedness is promised of it.
pub fn random_scalar() -> (r: Scalar)
    ensures
        scalar_wf(r),
{
    Scalar { v: os_random_u64() % FIELD_MOD }
}

/// A fresh random group element; only well-formedness is promised of it.
pub fn random_group() -> (r: G1G2)
    ensures
        g_wf(r),
{
    G1G2 { a: os_random_u64() % FIELD_MOD, b: os_random_u64() % FIELD_MOD }
}

} // verus!
