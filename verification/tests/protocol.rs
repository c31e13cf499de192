use spirit::group::{Scalar, G1G2, FIELD_MOD};
use spirit::pedersen::{Commitment, Proof2PK};
use spirit::spirit::{
    prf, spirit_broadcast, spirit_diagnosis, spirit_register, spirit_setup, spirit_trace,
    spirit_verify, TraceReport, UserCredential,
};
use spirit::state::{ConfirmedSet, ExposureTable, SpiritToken, TokenRegistry};

#[test]
fn scenario_one_user_registers() {
    let (pp, issuers, _h, _hash_fp, mut registry) = spirit_setup(3, 5, 5);
    assert_eq!(registry.len(), 0);
    let id_u = Scalar::from_u64(7);
    let out = spirit_register(id_u, &issuers, &pp, &mut registry);
    assert!(out.is_some());
    let (token, id_back, snapshot) = out.unwrap();
    assert_eq!(registry.len(), 1);
    assert_eq!(snapshot.len(), 1);
    assert_eq!(id_back, id_u);
    assert!(registry.contains(&token));
}

#[test]
fn scenario_broadcast_diagnose_verify() {
    let (pp, issuers, _h, _hash_fp, mut registry) = spirit_setup(3, 5, 5);
    let id_u = Scalar::from_u64(7);
    let (token, id_back, _snap) = spirit_register(id_u, &issuers, &pp, &mut registry).unwrap();

    let prv = Scalar::from_u64(99);
    let mut table = ExposureTable::new();
    spirit_broadcast(1, &prv, &mut table);
    spirit_broadcast(2, &prv, &mut table);
    spirit_broadcast(3, &prv, &mut table);
    assert_eq!(table.len(), 3);

    let credential = UserCredential { token, id_u: id_back };
    let contact_epochs: Vec<usize> = vec![1, 2];
    let report = spirit_diagnosis(credential, &prv, &contact_epochs).unwrap();
    assert_eq!(report.el_ids.len(), 2);
    assert_eq!(report.el_ids[0], prf(&prv, 1));
    assert_eq!(report.el_ids[1], prf(&prv, 2));

    let mut confirmed = ConfirmedSet::new();
    let (snapshot, accepted) = spirit_verify(report, &registry, &mut confirmed);
    assert!(accepted);
    assert!(confirmed.contains(&prf(&prv, 1)));
    assert!(confirmed.contains(&prf(&prv, 2)));
    assert!(!confirmed.contains(&prf(&prv, 3)));
    assert_eq!(snapshot.len(), confirmed.len());
}

#[test]
fn scenario_trace_counts_intersection() {
    let prv = Scalar::from_u64(1234);
    let mut table = ExposureTable::new();
    for epoch in 1..=10usize {
        spirit_broadcast(epoch, &prv, &mut table);
    }
    assert_eq!(table.len(), 10);

    let mut confirmed = ConfirmedSet::new();
    confirmed.insert(prf(&prv, 2));
    confirmed.insert(prf(&prv, 5));
    confirmed.insert(prf(&prv, 9));

    let (count, alarm) = spirit_trace(&confirmed, &table, 3);
    assert_eq!(count, 3);
    assert!(alarm);
    let (count_again, alarm_high) = spirit_trace(&confirmed, &table, 4);
    assert_eq!(count_again, 3);
    assert!(!alarm_high);
}

#[test]
fn trace_limit_zero_always_alarms() {
    let table = ExposureTable::new();
    let confirmed = ConfirmedSet::new();
    let (count, alarm) = spirit_trace(&confirmed, &table, 0);
    assert_eq!(count, 0);
    assert!(alarm);
}

#[test]
fn forged_token_report_rejected() {
    let (pp, issuers, _h, _hash_fp, mut registry) = spirit_setup(3, 5, 5);
    let id_u = Scalar::from_u64(7);
    let (token, id_back, _snap) = spirit_register(id_u, &issuers, &pp, &mut registry).unwrap();

    // A token that was never registered: same signature, shifted commitment.
    let forged = SpiritToken {
        cm: Commitment {
            value: G1G2 { a: (token.cm.value.a + 1) % FIELD_MOD, b: token.cm.value.b },
        },
        sig: token.sig,
    };
    assert!(!registry.contains(&forged));

    let prv = Scalar::from_u64(99);
    let credential = UserCredential { token: forged, id_u: id_back };
    let contact_epochs: Vec<usize> = vec![1, 2];
    // The disclosure proof is built honestly over the forged token, so it
    // verifies against its commitment: rejection can only come from the
    // registry check.
    let report = spirit_diagnosis(credential, &prv, &contact_epochs).unwrap();

    let mut confirmed = ConfirmedSet::new();
    let (_snapshot, accepted) = spirit_verify(report, &registry, &mut confirmed);
    assert!(!accepted);
    assert_eq!(confirmed.len(), 0);
    assert!(!confirmed.contains(&prf(&prv, 1)));
}

#[test]
fn tampered_proof_rejected() {
    let (pp, issuers, _h, _hash_fp, mut registry) = spirit_setup(3, 5, 5);
    let id_u = Scalar::from_u64(7);
    let (token, id_back, _snap) = spirit_register(id_u, &issuers, &pp, &mut registry).unwrap();

    let prv = Scalar::from_u64(99);
    let credential = UserCredential { token, id_u: id_back };
    let contact_epochs: Vec<usize> = vec![4];
    let report = spirit_diagnosis(credential, &prv, &contact_epochs).unwrap();

    let tampered = TraceReport {
        credential: report.credential,
        proof: Proof2PK { cm_tag: (report.proof.cm_tag + 1) % FIELD_MOD, ..report.proof },
        el_ids: report.el_ids,
    };
    let mut confirmed = ConfirmedSet::new();
    let (_snapshot, accepted) = spirit_verify(tampered, &registry, &mut confirmed);
    assert!(!accepted);
    assert_eq!(confirmed.len(), 0);
}

#[test]
fn reverify_same_report_keeps_set() {
    let (pp, issuers, _h, _hash_fp, mut registry) = spirit_setup(2, 3, 3);
    let id_u = Scalar::from_u64(11);
    let (token, id_back, _snap) = spirit_register(id_u, &issuers, &pp, &mut registry).unwrap();

    let prv = Scalar::from_u64(21);
    let credential = UserCredential { token, id_u: id_back };
    let contact_epochs: Vec<usize> = vec![8, 9];
    let report = spirit_diagnosis(credential, &prv, &contact_epochs).unwrap();
    let report_again = report.clone();

    let mut confirmed = ConfirmedSet::new();
    let (_s1, accepted_first) = spirit_verify(report, &registry, &mut confirmed);
    assert!(accepted_first);
    let len_after_first: usize = confirmed.len();
    let (_s2, accepted_second) = spirit_verify(report_again, &registry, &mut confirmed);
    assert!(accepted_second);
    assert_eq!(confirmed.len(), len_after_first);
}

#[test]
fn broadcast_overwrites_same_epoch() {
    let prv = Scalar::from_u64(5);
    let mut table = ExposureTable::new();
    spirit_broadcast(4, &prv, &mut table);
    assert_eq!(table.len(), 1);
    let snapshot = spirit_broadcast(4, &prv, &mut table);
    assert_eq!(table.len(), 1);
    assert_eq!(snapshot.len(), 1);
    spirit_broadcast(6, &prv, &mut table);
    assert_eq!(table.len(), 2);
    assert!(table.has(&prf(&prv, 4)));
    assert!(table.has(&prf(&prv, 6)));
}

#[test]
fn registry_size_never_decreases() {
    let (pp, issuers, _h, _hash_fp, mut registry) = spirit_setup(3, 5, 5);
    let mut last_len: usize = registry.len();
    assert_eq!(last_len, 0);

    let out1 = spirit_register(Scalar::from_u64(7), &issuers, &pp, &mut registry);
    assert!(out1.is_some());
    assert_eq!(registry.len(), last_len + 1);
    last_len = registry.len();

    // A failing attempt: too few issuers offered.
    let two: Vec<spirit::tact::Issuer> = vec![issuers[0], issuers[1]];
    let out2 = spirit_register(Scalar::from_u64(8), &two, &pp, &mut registry);
    assert!(out2.is_none());
    assert!(registry.len() >= last_len);
    assert_eq!(registry.len(), last_len);

    let out3 = spirit_register(Scalar::from_u64(9), &issuers, &pp, &mut registry);
    assert!(out3.is_some());
    assert_eq!(registry.len(), last_len + 1);
}
