use crl_registry::crl::{CRLContract, RevocationReason};
use crl_registry::merkle::build_merkle_root;
use sha2::{Digest, Sha256};
use soroban_sdk::Env;

fn bv(s: &str) -> Vec<u8> {
    s.as_bytes().to_vec()
}

fn h(data: &[u8]) -> Vec<u8> {
    Sha256::digest(data).to_vec()
}

fn h2(left: &[u8], right: &[u8]) -> Vec<u8> {
    let mut combined = left.to_vec();
    combined.extend_from_slice(right);
    h(&combined)
}

#[test]
fn test_empty_commitment_is_hash_of_empty_string() {
    let env = Env::default();
    let no_ids: Vec<Vec<u8>> = vec![];
    let root = build_merkle_root(&env, &no_ids);
    assert_eq!(root, h(b""));

    // A fresh registry carries exactly that commitment.
    let contract = CRLContract::initialize(&env, bv("issuer-1"), 0);
    assert_eq!(contract.get_merkle_root().unwrap(), &h(b""));
}

#[test]
fn test_single_entry_commitment_is_leaf_hash() {
    let env = Env::default();
    let root = build_merkle_root(&env, &vec![bv("CERT-001")]);
    assert_eq!(root, h(b"CERT-001"));

    let mut contract = CRLContract::initialize(&env, bv("issuer-1"), 0);
    contract
        .revoke_certificate(&env, &bv("issuer-1"), bv("CERT-001"), RevocationReason::KeyCompromise, None, 0)
        .unwrap();
    assert_eq!(contract.get_merkle_root().unwrap(), &h(b"CERT-001"));
}

#[test]
fn test_two_entry_commitment_pairs_leaves() {
    let env = Env::default();
    let root = build_merkle_root(&env, &vec![bv("A"), bv("B")]);
    assert_eq!(root, h2(&h(b"A"), &h(b"B")));
}

#[test]
fn test_odd_count_duplicates_last_node() {
    let env = Env::default();
    // Three leaves: the unpaired third is paired with itself, and the
    // reduction takes two rounds.
    let root = build_merkle_root(&env, &vec![bv("A"), bv("B"), bv("C")]);
    let left = h2(&h(b"A"), &h(b"B"));
    let right = h2(&h(b"C"), &h(b"C"));
    assert_eq!(root, h2(&left, &right));

    // Five leaves: the lonely fifth is duplicated on two levels.
    let root5 = build_merkle_root(&env, &vec![bv("A"), bv("B"), bv("C"), bv("D"), bv("E")]);
    let l01 = h2(&h(b"A"), &h(b"B"));
    let l23 = h2(&h(b"C"), &h(b"D"));
    let l44 = h2(&h(b"E"), &h(b"E"));
    let m0 = h2(&l01, &l23);
    let m1 = h2(&l44, &l44);
    assert_eq!(root5, h2(&m0, &m1));
}

#[test]
fn test_commitment_depends_on_insertion_order() {
    let env = Env::default();
    let ab = build_merkle_root(&env, &vec![bv("A"), bv("B")]);
    let ba = build_merkle_root(&env, &vec![bv("B"), bv("A")]);
    assert_ne!(ab, ba);
}

#[test]
fn test_commitment_hashes_only_identifiers() {
    let env = Env::default();
    let issuer = bv("issuer-1");

    // Two histories ending in the same identifier sequence carry the same
    // commitment, whatever reasons, dates or intermediate entries they saw.
    let mut a = CRLContract::initialize(&env, issuer.clone(), 0);
    a.revoke_certificate(&env, &issuer, bv("A"), RevocationReason::KeyCompromise, None, 1)
        .unwrap();
    a.revoke_certificate(&env, &issuer, bv("B"), RevocationReason::CACompromise, Some(7), 2)
        .unwrap();
    a.unrevoke_certificate(&env, &issuer, &bv("A"), 3).unwrap();

    let mut b = CRLContract::initialize(&env, issuer.clone(), 50);
    b.revoke_certificate(&env, &issuer, bv("B"), RevocationReason::Superseded, None, 60)
        .unwrap();

    assert_eq!(a.get_merkle_root().unwrap(), b.get_merkle_root().unwrap());
    assert_eq!(a.get_merkle_root().unwrap(), &h(b"B"));
}
