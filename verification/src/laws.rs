//! Laws of the registry, stated and proved over the mathematical views.
//!
//! The contracts in [`crate::crl`] pin each operation to its spec-level
//! transition; this module states the properties that hold across whole
//! sequences of such transitions: version counting, issuer immutability,
//! commitment freshness, the duplicate/absence failures, and the shape of
//! the commitment for the empty and the single-entry registry.

use vstd::prelude::*;

use crate::crl::{
    spec_initialize, spec_revoke, spec_unrevoke, spec_update_metadata, entry_ids,
    lemma_revoke_preserves_wf, lemma_unrevoke_preserves_wf, lemma_update_metadata_preserves_wf,
    CRLError, CrlView, RevocationReasonView, RevokedCertificateView,
};
use crate::hashing::sha256_of;
use crate::merkle::{lemma_empty_commitment, lemma_single_commitment, merkle_root_of};

verus! {

/// One mutating call of the registry, with its inputs.
pub enum RegistryOp {
    Revoke {
        caller: Seq<u8>,
        certificate_id: Seq<u8>,
        reason: RevocationReasonView,
        invalidity_date: Option<u64>,
        now: u64,
    },
    Unrevoke { caller: Seq<u8>, certificate_id: Seq<u8>, now: u64 },
    UpdateMetadata {
        caller: Seq<u8>,
        next_update: Option<u64>,
        authority_key_identifier: Option<Seq<u8>>,
        now: u64,
    },
}

/// The transition of one mutating call.
pub open spec fn apply_op(v: CrlView, op: RegistryOp) -> (CrlView, Result<(), CRLError>) {
    match op {
        RegistryOp::Revoke { caller, certificate_id, reason, invalidity_date, now } => spec_revoke(
            v,
            caller,
            certificate_id,
            reason,
            invalidity_date,
            now,
        ),
        RegistryOp::Unrevoke { caller, certificate_id, now } => spec_unrevoke(
            v,
            caller,
            certificate_id,
            now,
        ),
        RegistryOp::UpdateMetadata { caller, next_update, authority_key_identifier, now } => spec_update_metadata(
            v,
            caller,
            next_update,
            authority_key_identifier,
            now,
        ),
    }
}

/// The state after a sequence of mutating calls, applied in order.
pub open spec fn run_ops(v: CrlView, ops: Seq<RegistryOp>) -> CrlView
    decreases ops.len(),
{
    if ops.len() == 0 {
        v
    } else {
        run_ops(apply_op(v, ops[0]).0, ops.drop_first())
    }
}

/// How many calls of a sequence succeed, applied in order.
pub open spec fn count_successes(v: CrlView, ops: Seq<RegistryOp>) -> nat
    decreases ops.len(),
{
    if ops.len() == 0 {
        0nat
    } else {
        (if apply_op(v, ops[0]).1 is Ok {
            1nat
        } else {
            0nat
        }) + count_successes(apply_op(v, ops[0]).0, ops.drop_first())
    }
}

/// The time a mutating call was made at.
pub open spec fn op_time(op: RegistryOp) -> u64 {
    match op {
        RegistryOp::Revoke { now, .. } => now,
        RegistryOp::Unrevoke { now, .. } => now,
        RegistryOp::UpdateMetadata { now, .. } => now,
    }
}

/// A fresh registry is well-formed.
pub proof fn lemma_initialize_wf(issuer: Seq<u8>, now: u64)
    ensures
        spec_initialize(issuer, now).wf(),
{
    assert(entry_ids(Seq::<RevokedCertificateView>::empty()) =~= Seq::<Seq<u8>>::empty());
}

/// Any single mutating call either fails and leaves the state untouched,
/// or succeeds, preserves well-formedness, keeps the issuer, increments
/// the version by exactly one, and refreshes `this_update` to the call's
/// time.
pub proof fn lemma_apply_op(v: CrlView, op: RegistryOp)
    requires
        v.wf(),
        v.crl_number < u64::MAX,
    ensures
        apply_op(v, op).0.wf(),
        apply_op(v, op).0.issuer == v.issuer,
        apply_op(v, op).1 is Ok ==> apply_op(v, op).0.crl_number == v.crl_number + 1,
        apply_op(v, op).1 is Ok ==> apply_op(v, op).0.this_update == op_time(op),
        apply_op(v, op).1 is Err ==> apply_op(v, op).0 == v,
{
    match op {
        RegistryOp::Revoke { caller, certificate_id, reason, invalidity_date, now } => {
            lemma_revoke_preserves_wf(v, caller, certificate_id, reason, invalidity_date, now);
        },
        RegistryOp::Unrevoke { caller, certificate_id, now } => {
            lemma_unrevoke_preserves_wf(v, caller, certificate_id, now);
        },
        RegistryOp::UpdateMetadata { caller, next_update, authority_key_identifier, now } => {
            lemma_update_metadata_preserves_wf(
                v,
                caller,
                next_update,
                authority_key_identifier,
                now,
            );
        },
    }
}

/// Version counting over a whole sequence of calls: from a well-formed
/// state, running any sequence of mutating calls adds exactly the number
/// of successful calls to the version counter, keeps the state
/// well-formed, and never changes the issuer.
pub proof fn lemma_run_ops(v: CrlView, ops: Seq<RegistryOp>)
    requires
        v.wf(),
        v.crl_number + count_successes(v, ops) <= u64::MAX,
    ensures
        run_ops(v, ops).wf(),
        run_ops(v, ops).issuer == v.issuer,
        run_ops(v, ops).crl_number == v.crl_number + count_successes(v, ops),
    decreases ops.len(),
{
    if ops.len() == 0 {
    } else {
        let (w, r) = apply_op(v, ops[0]);
        if r is Ok {
            lemma_apply_op(v, ops[0]);
            lemma_run_ops(w, ops.drop_first());
        } else {
            assert(w == v);
            lemma_run_ops(w, ops.drop_first());
        }
    }
}

/// Version counting from creation: after any sequence of mutating calls
/// with `k` successes on a freshly initialized registry, the version is
/// exactly `1 + k`; the state stays well-formed and the issuer stays the
/// one bound at creation.
pub proof fn lemma_version_after_initialize(issuer: Seq<u8>, now: u64, ops: Seq<RegistryOp>)
    requires
        1 + count_successes(spec_initialize(issuer, now), ops) <= u64::MAX,
    ensures
        run_ops(spec_initialize(issuer, now), ops).crl_number == 1 + count_successes(
            spec_initialize(issuer, now),
            ops,
        ),
        run_ops(spec_initialize(issuer, now), ops).wf(),
        run_ops(spec_initialize(issuer, now), ops).issuer == issuer,
{
    lemma_initialize_wf(issuer, now);
    lemma_run_ops(spec_initialize(issuer, now), ops);
}

/// The cached commitment of a well-formed state equals the commitment
/// builder applied to the entries in their current order. Every
/// operation's contract yields a well-formed state, so a stale commitment
/// is never observable.
pub proof fn lemma_commitment_never_stale(v: CrlView)
    requires
        v.wf(),
    ensures
        v.merkle_root == Some(merkle_root_of(entry_ids(v.revoked_certificates))),
{
}

/// Revoking the same identifier a second time fails with
/// `AlreadyRevoked` and leaves the state of the first revocation
/// untouched, whatever reason, invalidity date or time the second call
/// carries.
pub proof fn lemma_revoke_twice_fails(
    v: CrlView,
    caller: Seq<u8>,
    certificate_id: Seq<u8>,
    reason1: RevocationReasonView,
    invalidity1: Option<u64>,
    now1: u64,
    reason2: RevocationReasonView,
    invalidity2: Option<u64>,
    now2: u64,
)
    requires
        spec_revoke(v, caller, certificate_id, reason1, invalidity1, now1).1 is Ok,
    ensures
        spec_revoke(
            spec_revoke(v, caller, certificate_id, reason1, invalidity1, now1).0,
            caller,
            certificate_id,
            reason2,
            invalidity2,
            now2,
        ) == (
            spec_revoke(v, caller, certificate_id, reason1, invalidity1, now1).0,
            Err::<(), CRLError>(CRLError::AlreadyRevoked),
        ),
{
    let w = spec_revoke(v, caller, certificate_id, reason1, invalidity1, now1).0;
    assert(w.revoked_certificates[w.revoked_certificates.len() - 1].certificate_id
        == certificate_id);
    assert(w.contains_id(certificate_id));
}

/// Unrevoking an identifier that is not in the list fails with `NotFound`
/// and leaves the state untouched.
pub proof fn lemma_unrevoke_absent_fails(
    v: CrlView,
    caller: Seq<u8>,
    certificate_id: Seq<u8>,
    now: u64,
)
    requires
        caller == v.issuer,
        !v.contains_id(certificate_id),
    ensures
        spec_unrevoke(v, caller, certificate_id, now) == (
            v,
            Err::<(), CRLError>(CRLError::NotFound),
        ),
{
}

/// The commitment is a function of the identifier sequence in its
/// insertion order, and of nothing else: two well-formed states whose
/// identifier sequences are equal carry equal commitments, whatever
/// histories produced them and whatever else their entries hold.
pub proof fn lemma_commitment_determined_by_ids(a: CrlView, b: CrlView)
    requires
        a.wf(),
        b.wf(),
        a.ids() == b.ids(),
    ensures
        a.merkle_root == b.merkle_root,
{
}

/// A fresh registry's commitment is the hash of the empty byte string: a
/// defined sentinel, not an absent value.
pub proof fn lemma_fresh_commitment_is_empty_hash(issuer: Seq<u8>, now: u64)
    ensures
        spec_initialize(issuer, now).merkle_root == Some(sha256_of(Seq::empty())),
{
    lemma_empty_commitment();
}

/// A single-entry registry's commitment is the hash of that entry's
/// identifier.
pub proof fn lemma_single_entry_commitment(v: CrlView)
    requires
        v.wf(),
        v.revoked_certificates.len() == 1,
    ensures
        v.merkle_root == Some(sha256_of(v.revoked_certificates[0].certificate_id)),
{
    assert(entry_ids(v.revoked_certificates) =~= seq![v.revoked_certificates[0].certificate_id]);
    lemma_single_commitment(v.revoked_certificates[0].certificate_id);
}

} // verus!

