use spirit::group::{field_add, field_mul, g_scale, G1G2, Scalar, FIELD_MOD};
use spirit::spirit::{prf, spirit_register, spirit_setup};
use spirit::tact::{setup, tissue, Issuer, IssueError, SetupError};

#[test]
fn field_arithmetic_exact_values() {
    assert_eq!(field_add(2, 3), 5);
    assert_eq!(field_add(FIELD_MOD - 1, 1), 0);
    assert_eq!(field_mul(2, 3), 6);
    assert_eq!(field_mul(FIELD_MOD - 1, 2), FIELD_MOD - 2);
    assert_eq!(Scalar::from_u64(FIELD_MOD + 3).v, 3);
}

#[test]
fn scale_exact_values() {
    let g = G1G2 { a: 2, b: 3 };
    let k = Scalar::from_u64(5);
    let r = g_scale(&g, &k);
    assert_eq!(r, G1G2 { a: 10, b: 15 });
}

#[test]
fn prf_is_deterministic() {
    let k = Scalar::from_u64(42);
    let a = prf(&k, 5);
    let b = prf(&k, 5);
    assert_eq!(a, b);
    let c = prf(&k, 6);
    assert_ne!(a, c);
}

#[test]
fn prf_distinct_secrets_never_collide() {
    let k1 = Scalar::from_u64(3);
    let k2 = Scalar::from_u64(5);
    let sample = 60usize;
    let els1: Vec<G1G2> = (0..sample).map(|e| prf(&k1, e)).collect();
    let els2: Vec<G1G2> = (0..sample).map(|e| prf(&k2, e)).collect();
    for i in 0..sample {
        for j in 0..sample {
            assert_ne!(els1[i], els2[j]);
            if i != j {
                assert_ne!(els1[i], els1[j]);
                assert_ne!(els2[i], els2[j]);
            }
        }
    }
}

#[test]
fn setup_rejects_inconsistent_thresholds() {
    // Threshold above the share count.
    assert_eq!(setup(5, 2, 3, 2, 1).err(), Some(SetupError::InvalidThreshold));
    // Too few issuers to reach the threshold.
    assert_eq!(setup(2, 5, 3, 2, 1).err(), Some(SetupError::InvalidThreshold));
    // A threshold of zero.
    assert_eq!(setup(5, 5, 0, 0, 1).err(), Some(SetupError::InvalidThreshold));
    // A consistent configuration.
    assert!(setup(5, 5, 3, 2, 1).is_ok());
}

#[test]
fn tissue_rejects_unknown_issuer() {
    let (pp, issuers) = setup(3, 3, 2, 1, 1).unwrap();
    let id_u = Scalar::from_u64(7);
    let (strg, cm) = spirit::tact::register(&id_u, &pp);
    let (blind_request, _rnd) = spirit::tact::token_request(&strg, &cm, &pp);
    // An issuer whose index is off the roster cannot serve the request.
    let stray = Issuer { index: 17, sk: issuers[0].sk };
    let r = tissue(&blind_request, &stray, &pp);
    assert_eq!(r.err(), Some(IssueError::UnknownIssuer));
    // A rostered issuer can.
    assert!(tissue(&blind_request, &issuers[1], &pp).is_ok());
}

#[test]
fn threshold_subset_behaviour() {
    let (pp, issuers, _h, _hash_fp, mut registry) = spirit_setup(3, 5, 5);
    let id_u = Scalar::from_u64(7);

    // Fewer than t issuers: registration fails, registry untouched.
    let two: Vec<Issuer> = vec![issuers[0], issuers[1]];
    assert!(spirit_register(id_u, &two, &pp, &mut registry).is_none());
    assert_eq!(registry.len(), 0);

    // The same issuer offered t times: the partial tokens are not from
    // distinct issuers, so registration fails.
    let dupes: Vec<Issuer> = vec![issuers[2], issuers[2], issuers[2]];
    assert!(spirit_register(id_u, &dupes, &pp, &mut registry).is_none());
    assert_eq!(registry.len(), 0);

    // Any t distinct genuine issuers succeed.
    let subset: Vec<Issuer> = vec![issuers[4], issuers[1], issuers[3]];
    assert!(spirit_register(id_u, &subset, &pp, &mut registry).is_some());
    assert_eq!(registry.len(), 1);

    // An issuer with a foreign secret share among the first t: rejected
    // by the self-check.
    let impostor = Issuer { index: 0, sk: Scalar::from_u64(123456) };
    let mixed: Vec<Issuer> = vec![impostor, issuers[1], issuers[2]];
    assert!(spirit_register(id_u, &mixed, &pp, &mut registry).is_none());
    assert_eq!(registry.len(), 1);
}

#[test]
fn aggregated_token_fails_check_when_tampered() {
    let (pp, issuers) = setup(4, 4, 2, 1, 1).unwrap();
    let id_u = Scalar::from_u64(9);
    let (strg, cm) = spirit::tact::register(&id_u, &pp);
    let (blind_request, rnd) = spirit::tact::token_request(&strg, &cm, &pp);
    let p0 = tissue(&blind_request, &issuers[0], &pp).unwrap();
    let p1 = tissue(&blind_request, &issuers[1], &pp).unwrap();
    let token = spirit::tact::aggregate_unblind(vec![p0, p1], &rnd, &pp);
    let proof = spirit::tact::prove(&token, &rnd, &pp);
    assert!(spirit::tact::verify(&token, &proof, &blind_request, &pp).is_ok());

    // One partial token too few.
    let short = spirit::tact::aggregate_unblind(vec![p0], &rnd, &pp);
    let short_proof = spirit::tact::prove(&short, &rnd, &pp);
    assert_eq!(
        spirit::tact::verify(&short, &short_proof, &blind_request, &pp).err(),
        Some(spirit::tact::VerifyError::InvalidToken)
    );
}
