use crl_registry::crl::{CRLContract, CRLError, Pagination, RevocationReason, RevokedCertificate};
use soroban_sdk::Env;

fn bv(s: &str) -> Vec<u8> {
    s.as_bytes().to_vec()
}

#[test]
fn test_crl_initialization() {
    let env = Env::default();
    let issuer = bv("issuer-1");

    let contract = CRLContract::initialize(&env, issuer.clone(), 0);

    let crl = contract.get_crl_info();
    assert_eq!(crl.issuer, issuer);
    assert_eq!(crl.revoked_certificates.len(), 0);
    assert_eq!(crl.crl_number, 1);
    assert!(crl.merkle_root.is_some());
}

#[test]
fn test_revoke_certificate() {
    let env = Env::default();
    let issuer = bv("issuer-1");
    let cert_id = bv("CERT-001");
    let reason = RevocationReason::KeyCompromise;

    let mut contract = CRLContract::initialize(&env, issuer.clone(), 0);

    contract
        .revoke_certificate(&env, &issuer, cert_id.clone(), reason, None, 0)
        .unwrap();

    assert!(contract.is_revoked(&cert_id));

    let info = contract.get_revocation_info(&cert_id);
    assert!(info.is_some());
    let info = info.unwrap();
    assert_eq!(info.certificate_id, cert_id);
    assert_eq!(info.reason, RevocationReason::KeyCompromise);
    assert_eq!(info.issuer, issuer);

    let crl = contract.get_crl_info();
    assert_eq!(crl.revoked_certificates.len(), 1);
    assert_eq!(crl.crl_number, 2);
}

#[test]
fn test_multiple_revocations() {
    let env = Env::default();
    let issuer = bv("issuer-1");

    let mut contract = CRLContract::initialize(&env, issuer.clone(), 0);

    let cert1 = bv("CERT-001");
    let cert2 = bv("CERT-002");
    let cert3 = bv("CERT-003");

    contract
        .revoke_certificate(&env, &issuer, cert1.clone(), RevocationReason::KeyCompromise, None, 0)
        .unwrap();
    contract
        .revoke_certificate(&env, &issuer, cert2.clone(), RevocationReason::CACompromise, None, 0)
        .unwrap();
    contract
        .revoke_certificate(&env, &issuer, cert3.clone(), RevocationReason::Superseded, None, 0)
        .unwrap();

    assert!(contract.is_revoked(&cert1));
    assert!(contract.is_revoked(&cert2));
    assert!(contract.is_revoked(&cert3));

    assert_eq!(contract.get_revoked_count(), 3);

    let crl = contract.get_crl_info();
    assert_eq!(crl.crl_number, 4);
}

#[test]
fn test_unrevoke_certificate() {
    let env = Env::default();
    let issuer = bv("issuer-1");
    let cert_id = bv("CERT-001");

    let mut contract = CRLContract::initialize(&env, issuer.clone(), 0);

    contract
        .revoke_certificate(&env, &issuer, cert_id.clone(), RevocationReason::KeyCompromise, None, 0)
        .unwrap();
    assert!(contract.is_revoked(&cert_id));
    assert_eq!(contract.get_revoked_count(), 1);

    contract.unrevoke_certificate(&env, &issuer, &cert_id, 0).unwrap();
    assert!(!contract.is_revoked(&cert_id));
    assert_eq!(contract.get_revoked_count(), 0);

    let crl = contract.get_crl_info();
    assert_eq!(crl.crl_number, 3);
}

fn all_reasons() -> Vec<RevocationReason> {
    vec![
        RevocationReason::KeyCompromise,
        RevocationReason::CACompromise,
        RevocationReason::AffiliationChanged,
        RevocationReason::Superseded,
        RevocationReason::CessationOfOperation,
        RevocationReason::CertificateHold,
        RevocationReason::PrivilegeWithdrawn,
        RevocationReason::AACompromise,
        RevocationReason::Other(bv("Custom reason")),
    ]
}

#[test]
fn test_revocation_reasons() {
    let env = Env::default();
    let issuer = bv("issuer-1");

    let mut contract = CRLContract::initialize(&env, issuer.clone(), 0);

    for (i, reason) in all_reasons().into_iter().enumerate() {
        let cert_id = bv(&format!("CERT-{:03}", i));
        contract
            .revoke_certificate(&env, &issuer, cert_id.clone(), reason, None, 0)
            .unwrap();
        let info = contract.get_revocation_info(&cert_id).unwrap();
        assert_eq!(info.reason, all_reasons()[i]);
    }
}

#[test]
fn test_paginated_retrieval() {
    let env = Env::default();
    let issuer = bv("issuer-1");

    let mut contract = CRLContract::initialize(&env, issuer.clone(), 0);

    for i in 0..15 {
        let cert_id = bv(&format!("CERT-{:03}", i));
        contract
            .revoke_certificate(&env, &issuer, cert_id, RevocationReason::KeyCompromise, None, 0)
            .unwrap();
    }

    let page1 = contract.get_revoked_certificates(Pagination { page: 0, limit: 5 });
    assert_eq!(page1.data.len(), 5);
    assert_eq!(page1.total, 15);
    assert_eq!(page1.page, 0);
    assert_eq!(page1.limit, 5);
    assert!(page1.has_next);

    let page2 = contract.get_revoked_certificates(Pagination { page: 1, limit: 5 });
    assert_eq!(page2.data.len(), 5);
    assert!(page2.has_next);

    let page3 = contract.get_revoked_certificates(Pagination { page: 2, limit: 5 });
    assert_eq!(page3.data.len(), 5);
    assert!(!page3.has_next);

    let page4 = contract.get_revoked_certificates(Pagination { page: 3, limit: 5 });
    assert_eq!(page4.data.len(), 0);
    assert!(!page4.has_next);
}

#[test]
fn test_verify_certificate() {
    let env = Env::default();
    let issuer = bv("issuer-1");
    let cert_id = bv("CERT-001");

    let mut contract = CRLContract::initialize(&env, issuer.clone(), 0);

    let result = contract.verify_certificate(&cert_id);
    assert!(!result.is_revoked);
    assert!(result.revocation_info.is_none());
    assert_eq!(result.crl_number, 1);

    contract
        .revoke_certificate(&env, &issuer, cert_id.clone(), RevocationReason::KeyCompromise, None, 0)
        .unwrap();
    let result = contract.verify_certificate(&cert_id);
    assert!(result.is_revoked);
    assert!(result.revocation_info.is_some());
    assert_eq!(result.crl_number, 2);
}

#[test]
fn test_merkle_root_updates() {
    let env = Env::default();
    let issuer = bv("issuer-1");

    let mut contract = CRLContract::initialize(&env, issuer.clone(), 0);

    let initial_root = contract.get_merkle_root();
    assert!(initial_root.is_some());

    let root1 = contract.get_merkle_root().unwrap().clone();
    contract
        .revoke_certificate(&env, &issuer, bv("CERT-001"), RevocationReason::KeyCompromise, None, 0)
        .unwrap();
    let root2 = contract.get_merkle_root().unwrap().clone();
    assert_ne!(root1, root2);

    contract
        .revoke_certificate(&env, &issuer, bv("CERT-002"), RevocationReason::KeyCompromise, None, 0)
        .unwrap();
    let root3 = contract.get_merkle_root().unwrap().clone();
    assert_ne!(root2, root3);

    contract.unrevoke_certificate(&env, &issuer, &bv("CERT-001"), 0).unwrap();
    let root4 = contract.get_merkle_root().unwrap().clone();
    assert_ne!(root3, root4);
}

#[test]
fn test_crl_metadata_updates() {
    let env = Env::default();
    let issuer = bv("issuer-1");

    let mut contract = CRLContract::initialize(&env, issuer.clone(), 0);

    let original_update = contract.get_crl_info().next_update;

    let new_update = original_update + 3600;
    contract
        .update_crl_metadata(&issuer, Some(new_update), None, 0)
        .unwrap();

    let updated_crl = contract.get_crl_info();
    assert_eq!(updated_crl.next_update, new_update);
    assert_eq!(updated_crl.crl_number, 2);

    assert!(!contract.needs_update(0));
}

#[test]
fn test_duplicate_revocation_fails() {
    let env = Env::default();
    let issuer = bv("issuer-1");
    let cert_id = bv("CERT-001");

    let mut contract = CRLContract::initialize(&env, issuer.clone(), 0);
    contract
        .revoke_certificate(&env, &issuer, cert_id.clone(), RevocationReason::KeyCompromise, None, 0)
        .unwrap();

    let second = contract.revoke_certificate(
        &env,
        &issuer,
        cert_id.clone(),
        RevocationReason::KeyCompromise,
        None,
        0,
    );
    assert_eq!(second, Err(CRLError::AlreadyRevoked));
    assert_eq!(contract.get_crl_info().crl_number, 2);
    assert_eq!(contract.get_revoked_count(), 1);
}

#[test]
fn test_unrevoke_nonexistent_fails() {
    let env = Env::default();
    let issuer = bv("issuer-1");
    let cert_id = bv("CERT-001");

    let mut contract = CRLContract::initialize(&env, issuer.clone(), 0);

    let result = contract.unrevoke_certificate(&env, &issuer, &cert_id, 0);
    assert_eq!(result, Err(CRLError::NotFound));
    assert_eq!(contract.get_crl_info().crl_number, 1);
}

#[test]
fn test_unauthorized_caller_rejected() {
    let env = Env::default();
    let issuer = bv("issuer-1");
    let intruder = bv("intruder");
    let cert_id = bv("CERT-001");

    let mut contract = CRLContract::initialize(&env, issuer.clone(), 0);

    let r = contract.revoke_certificate(
        &env,
        &intruder,
        cert_id.clone(),
        RevocationReason::KeyCompromise,
        None,
        0,
    );
    assert_eq!(r, Err(CRLError::Unauthorized));

    let u = contract.unrevoke_certificate(&env, &intruder, &cert_id, 0);
    assert_eq!(u, Err(CRLError::Unauthorized));

    let m = contract.update_crl_metadata(&intruder, Some(99), None, 0);
    assert_eq!(m, Err(CRLError::Unauthorized));

    assert_eq!(contract.get_crl_info().crl_number, 1);
    assert!(!contract.is_revoked(&cert_id));
}

#[test]
fn test_revoke_unrevoke_scenario() {
    let env = Env::default();
    let issuer = bv("issuer-I");
    let cert_id = bv("C1");

    let mut contract = CRLContract::initialize(&env, issuer.clone(), 0);
    let empty_root = contract.get_merkle_root().unwrap().clone();

    contract
        .revoke_certificate(&env, &issuer, cert_id.clone(), RevocationReason::KeyCompromise, None, 5)
        .unwrap();
    assert!(contract.is_revoked(&cert_id));
    assert_eq!(contract.get_crl_info().crl_number, 2);
    let revoked_root = contract.get_merkle_root().unwrap().clone();
    assert_ne!(revoked_root, empty_root);

    contract.unrevoke_certificate(&env, &issuer, &cert_id, 6).unwrap();
    assert!(!contract.is_revoked(&cert_id));
    assert_eq!(contract.get_crl_info().crl_number, 3);
    let final_root = contract.get_merkle_root().unwrap().clone();
    assert_ne!(final_root, revoked_root);
    // The list is empty again, so the commitment is back to the
    // commitment of the empty collection.
    assert_eq!(final_root, empty_root);
}

#[test]
fn test_needs_update_advisory() {
    let env = Env::default();
    let issuer = bv("issuer-1");

    let contract = CRLContract::initialize(&env, issuer.clone(), 100);
    let deadline = contract.get_crl_info().next_update;
    assert_eq!(deadline, 100 + 86400);
    assert!(!contract.needs_update(deadline - 1));
    assert!(contract.needs_update(deadline));
    assert!(contract.needs_update(deadline + 1));
}

#[test]
fn test_pagination_partial_last_page() {
    let env = Env::default();
    let issuer = bv("issuer-1");

    let mut contract = CRLContract::initialize(&env, issuer.clone(), 0);
    for i in 0..7 {
        contract
            .revoke_certificate(
                &env,
                &issuer,
                bv(&format!("CERT-{:03}", i)),
                RevocationReason::Superseded,
                None,
                0,
            )
            .unwrap();
    }

    let page = contract.get_revoked_certificates(Pagination { page: 1, limit: 5 });
    assert_eq!(page.data.len(), 2);
    assert_eq!(page.total, 7);
    assert!(!page.has_next);
    assert_eq!(page.data[0].certificate_id, bv("CERT-005"));
    assert_eq!(page.data[1].certificate_id, bv("CERT-006"));

    let empty = contract.get_revoked_certificates(Pagination { page: 9, limit: 5 });
    assert_eq!(empty.data.len(), 0);
    assert!(!empty.has_next);
}

#[test]
fn test_update_metadata_no_op_still_versions() {
    let env = Env::default();
    let issuer = bv("issuer-1");

    let mut contract = CRLContract::initialize(&env, issuer.clone(), 0);
    let before = contract.get_crl_info().next_update;

    contract.update_crl_metadata(&issuer, None, None, 42).unwrap();

    let crl = contract.get_crl_info();
    assert_eq!(crl.crl_number, 2);
    assert_eq!(crl.next_update, before);
    assert_eq!(crl.this_update, 42);
    assert!(crl.authority_key_identifier.is_none());

    contract
        .update_crl_metadata(&issuer, None, Some(bv("key-7")), 43)
        .unwrap();
    let crl = contract.get_crl_info();
    assert_eq!(crl.crl_number, 3);
    assert_eq!(crl.authority_key_identifier, Some(bv("key-7")));
}

#[test]
fn test_is_well_formed_detects_tampering() {
    let env = Env::default();
    let issuer = bv("issuer-1");

    let mut contract = CRLContract::initialize(&env, issuer.clone(), 0);
    contract
        .revoke_certificate(&env, &issuer, bv("CERT-001"), RevocationReason::KeyCompromise, None, 0)
        .unwrap();
    assert!(contract.is_well_formed(&env));

    // A stale commitment is rejected.
    let mut stale = CRLContract { crl: contract.get_crl_info().clone() };
    stale.crl.revoked_certificates.push(RevokedCertificate {
        certificate_id: bv("CERT-002"),
        issuer: issuer.clone(),
        revocation_date: 0,
        reason: RevocationReason::Superseded,
        invalidity_date: None,
    });
    assert!(!stale.is_well_formed(&env));

    // A duplicate identifier is rejected.
    let mut dup = CRLContract { crl: contract.get_crl_info().clone() };
    dup.crl.revoked_certificates.push(dup.crl.revoked_certificates[0].clone());
    assert!(!dup.is_well_formed(&env));

    // A missing commitment is rejected.
    let mut missing = CRLContract { crl: contract.get_crl_info().clone() };
    missing.crl.merkle_root = None;
    assert!(!missing.is_well_formed(&env));
}

#[test]
fn test_this_update_refreshed_on_mutation() {
    let env = Env::default();
    let issuer = bv("issuer-1");

    let mut contract = CRLContract::initialize(&env, issuer.clone(), 10);
    assert_eq!(contract.get_crl_info().this_update, 10);

    contract
        .revoke_certificate(&env, &issuer, bv("CERT-001"), RevocationReason::KeyCompromise, None, 20)
        .unwrap();
    assert_eq!(contract.get_crl_info().this_update, 20);

    contract.unrevoke_certificate(&env, &issuer, &bv("CERT-001"), 30).unwrap();
    assert_eq!(contract.get_crl_info().this_update, 30);
}

#[test]
fn test_invalidity_date_carried_through() {
    let env = Env::default();
    let issuer = bv("issuer-1");
    let cert_id = bv("CERT-001");

    let mut contract = CRLContract::initialize(&env, issuer.clone(), 0);
    contract
        .revoke_certificate(&env, &issuer, cert_id.clone(), RevocationReason::KeyCompromise, Some(42), 100)
        .unwrap();

    let info = contract.get_revocation_info(&cert_id).unwrap();
    assert_eq!(info.invalidity_date, Some(42));
    assert_eq!(info.revocation_date, 100);
}
