//! The revocation registry: data model, mutation/versioning protocol and
//! read-only query layer.
//!
//! A registry is bound to one authority at creation. Every mutating
//! operation checks authorization first, then its own precondition, and
//! either applies its whole effect — including a synchronous recompute of
//! the commitment over the entries in insertion order and an increment of
//! the version counter — or leaves the state untouched and returns a typed
//! error.
//!
//! Identifiers and authority identities are plain byte strings. The caller
//! identity passed to a mutating operation is the identity that the
//! surrounding environment has already authenticated cryptographically;
//! the registry itself only compares it against its bound issuer.
//!
//! Every operation is specified against [`CrlView`], the mathematical view
//! of the registry, by a spec-level transition function, so the exact
//! effect of each call is pinned down.

use vstd::prelude::*;

use crate::bytes::{bytes_eq, clone_bytes};
use crate::merkle::{build_merkle_root, merkle_root_of, views_of};

verus! {

/// Why a certificate was revoked: the closed enumeration of listed
/// reasons, plus one free-text variant for unlisted reasons.
#[derive(Clone, Debug, PartialEq, Eq)]
pub enum RevocationReason {
    KeyCompromise,
    CACompromise,
    AffiliationChanged,
    Superseded,
    CessationOfOperation,
    CertificateHold,
    RemoveFromCRL,
    PrivilegeWithdrawn,
    AACompromise,
    Other(Vec<u8>),
}

/// The mathematical view of a [`RevocationReason`].
#[verifier::ext_equal]
pub enum RevocationReasonView {
    KeyCompromise,
    CACompromise,
    AffiliationChanged,
    Superseded,
    CessationOfOperation,
    CertificateHold,
    RemoveFromCRL,
    PrivilegeWithdrawn,
    AACompromise,
    Other(Seq<u8>),
}

impl View for RevocationReason {
    type V = RevocationReasonView;

    open spec fn view(&self) -> RevocationReasonView {
        match self {
            RevocationReason::KeyCompromise => RevocationReasonView::KeyCompromise,
            RevocationReason::CACompromise => RevocationReasonView::CACompromise,
            RevocationReason::AffiliationChanged => RevocationReasonView::AffiliationChanged,
            RevocationReason::Superseded => RevocationReasonView::Superseded,
            RevocationReason::CessationOfOperation => RevocationReasonView::CessationOfOperation,
            RevocationReason::CertificateHold => RevocationReasonView::CertificateHold,
            RevocationReason::RemoveFromCRL => RevocationReasonView::RemoveFromCRL,
            RevocationReason::PrivilegeWithdrawn => RevocationReasonView::PrivilegeWithdrawn,
            RevocationReason::AACompromise => RevocationReasonView::AACompromise,
            RevocationReason::Other(v) => RevocationReasonView::Other(v@),
        }
    }
}

/// One revoked certificate record.
#[derive(Clone, Debug, PartialEq, Eq)]
pub struct RevokedCertificate {
    /// Identifier of the revoked certificate, unique among current entries.
    pub certificate_id: Vec<u8>,
    /// The authority that performed the revocation: always the registry's
    /// configured issuer.
    pub issuer: Vec<u8>,
    /// Timestamp of the revocation call.
    pub revocation_date: u64,
    pub reason: RevocationReason,
    /// When the certificate actually became compromised, possibly before
    /// `revocation_date`; carried through, never validated against it.
    pub invalidity_date: Option<u64>,
}

/// The mathematical view of a [`RevokedCertificate`].
#[verifier::ext_equal]
pub struct RevokedCertificateView {
    pub certificate_id: Seq<u8>,
    pub issuer: Seq<u8>,
    pub revocation_date: u64,
    pub reason: RevocationReasonView,
    pub invalidity_date: Option<u64>,
}

impl View for RevokedCertificate {
    type V = RevokedCertificateView;

    open spec fn view(&self) -> RevokedCertificateView {
        RevokedCertificateView {
            certificate_id: self.certificate_id@,
            issuer: self.issuer@,
            revocation_date: self.revocation_date,
            reason: self.reason@,
            invalidity_date: self.invalidity_date,
        }
    }
}

/// A CRL entry reduced to what an inclusion proof would reference. The
/// data model reserves this record; no operation of the registry builds
/// one.
#[derive(Clone, Debug, PartialEq, Eq)]
pub struct CRLEntry {
    pub certificate_id: Vec<u8>,
    pub revocation_date: u64,
    pub reason_code: u32,
}

/// A node of the commitment tree, reserved for inclusion proofs. No
/// operation of the registry builds or checks one; proof support is a
/// documented non-goal.
#[derive(Clone, Debug, PartialEq, Eq)]
pub struct MerkleNode {
    pub hash: Vec<u8>,
    pub left: Option<u32>,
    pub right: Option<u32>,
}

/// The registry aggregate: the authoritative ordered list of revoked
/// entries plus versioning metadata and the cached commitment.
#[derive(Clone, Debug, PartialEq, Eq)]
pub struct CertificateRevocationList {
    /// The single authority bound at creation; immutable thereafter.
    pub issuer: Vec<u8>,
    /// Refreshed to "now" on every mutating operation.
    pub this_update: u64,
    /// Advisory deadline for the next refresh; settable, never enforced.
    pub next_update: u64,
    /// Ordered by insertion; the commitment is order-sensitive.
    pub revoked_certificates: Vec<RevokedCertificate>,
    /// Cached commitment over `revoked_certificates` in order; recomputed
    /// synchronously inside every operation that changes the entries.
    pub merkle_root: Option<Vec<u8>>,
    /// Version counter: 1 at creation, incremented by exactly 1 on every
    /// mutating operation, administrative no-ops included.
    pub crl_number: u64,
    /// Opaque identifier of the authority's signing key, if set.
    pub authority_key_identifier: Option<Vec<u8>>,
}

/// The mathematical view of the registry aggregate.
#[verifier::ext_equal]
pub struct CrlView {
    pub issuer: Seq<u8>,
    pub this_update: u64,
    pub next_update: u64,
    pub revoked_certificates: Seq<RevokedCertificateView>,
    pub merkle_root: Option<Seq<u8>>,
    pub crl_number: u64,
    pub authority_key_identifier: Option<Seq<u8>>,
}

/// The views of a sequence of entries.
pub open spec fn entries_view(s: Seq<RevokedCertificate>) -> Seq<RevokedCertificateView> {
    s.map_values(|e: RevokedCertificate| e@)
}

impl View for CertificateRevocationList {
    type V = CrlView;

    open spec fn view(&self) -> CrlView {
        CrlView {
            issuer: self.issuer@,
            this_update: self.this_update,
            next_update: self.next_update,
            revoked_certificates: entries_view(self.revoked_certificates@),
            merkle_root: match self.merkle_root {
                Some(h) => Some(h@),
                None => None,
            },
            crl_number: self.crl_number,
            authority_key_identifier: match self.authority_key_identifier {
                Some(k) => Some(k@),
                None => None,
            },
        }
    }
}

/// The identifiers of a sequence of entries, in order.
pub open spec fn entry_ids(entries: Seq<RevokedCertificateView>) -> Seq<Seq<u8>> {
    entries.map_values(|e: RevokedCertificateView| e.certificate_id)
}

/// The position of the first entry carrying `id`, or the length of the
/// sequence when no entry carries it.
pub open spec fn index_of_id(entries: Seq<RevokedCertificateView>, id: Seq<u8>) -> int
    decreases entries.len(),
{
    if entries.len() == 0 {
        0
    } else if entries[0].certificate_id == id {
        0
    } else {
        1 + index_of_id(entries.drop_first(), id)
    }
}

/// What [`index_of_id`] returns: an in-range position carrying `id` with
/// no earlier match, or the length when `id` is absent.
pub proof fn lemma_index_of_id(entries: Seq<RevokedCertificateView>, id: Seq<u8>)
    ensures
        0 <= index_of_id(entries, id) <= entries.len(),
        index_of_id(entries, id) < entries.len() ==> entries[index_of_id(entries, id)].certificate_id
            == id,
        forall|k: int|
            0 <= k < index_of_id(entries, id) ==> entries[k].certificate_id != id,
        index_of_id(entries, id) == entries.len() ==> forall|k: int|
            0 <= k < entries.len() ==> entries[k].certificate_id != id,
    decreases entries.len(),
{
    if entries.len() == 0 {
    } else if entries[0].certificate_id == id {
    } else {
        lemma_index_of_id(entries.drop_first(), id);
        assert(forall|k: int|
            1 <= k < entries.len() ==> entries[k] == entries.drop_first()[k - 1]);
    }
}

/// The typed failures of registry operations.
#[derive(Clone, Copy, Debug, PartialEq, Eq, Structural)]
pub enum CRLError {
    /// No registry exists yet where one was expected. The registry value
    /// itself never produces this; the surrounding storage layer reports
    /// it when the aggregate is absent.
    NotInitialized,
    /// The identifier is not in the revocation list.
    NotFound,
    /// The identifier is already in the revocation list.
    AlreadyRevoked,
    /// The caller is not the registry's bound issuer.
    Unauthorized,
}

/// The advisory refresh window added to "now" at creation to seed
/// `next_update`: 24 hours, in seconds.
pub const NEXT_UPDATE_WINDOW: u64 = 86400;

impl CrlView {
    /// The identifiers of the current entries, in insertion order.
    pub open spec fn ids(self) -> Seq<Seq<u8>> {
        entry_ids(self.revoked_certificates)
    }

    /// Whether some current entry carries `id`.
    pub open spec fn contains_id(self, id: Seq<u8>) -> bool {
        exists|i: int|
            0 <= i < self.revoked_certificates.len()
                && self.revoked_certificates[i].certificate_id == id
    }

    /// Well-formedness of a registry state: the version counter has been
    /// seeded, identifiers are unique, every entry was revoked by the
    /// bound issuer, and the cached commitment equals the commitment
    /// builder applied to the entries in their current order — never
    /// stale.
    pub open spec fn wf(self) -> bool {
        &&& self.crl_number >= 1
        &&& forall|i: int, j: int|
            0 <= i < j < self.revoked_certificates.len()
                ==> self.revoked_certificates[i].certificate_id
                != self.revoked_certificates[j].certificate_id
        &&& forall|i: int|
            0 <= i < self.revoked_certificates.len()
                ==> (#[trigger] self.revoked_certificates[i]).issuer == self.issuer
        &&& self.merkle_root == Some(merkle_root_of(self.ids()))
    }
}

/// The state created by `initialize`: version 1, no entries, the
/// commitment of the empty collection, and an advisory `next_update` one
/// window after "now".
pub open spec fn spec_initialize(issuer: Seq<u8>, now: u64) -> CrlView {
    CrlView {
        issuer: issuer,
        this_update: now,
        next_update: (now + NEXT_UPDATE_WINDOW) as u64,
        revoked_certificates: Seq::empty(),
        merkle_root: Some(merkle_root_of(Seq::empty())),
        crl_number: 1,
        authority_key_identifier: None,
    }
}

/// The transition of `revoke_certificate`: authorization first, then the
/// duplicate check; on success the new entry is appended, `this_update`
/// is refreshed, the version is incremented and the commitment is
/// recomputed. On failure the state is unchanged.
pub open spec fn spec_revoke(
    v: CrlView,
    caller: Seq<u8>,
    certificate_id: Seq<u8>,
    reason: RevocationReasonView,
    invalidity_date: Option<u64>,
    now: u64,
) -> (CrlView, Result<(), CRLError>) {
    if caller != v.issuer {
        (v, Err(CRLError::Unauthorized))
    } else if v.contains_id(certificate_id) {
        (v, Err(CRLError::AlreadyRevoked))
    } else {
        let entries = v.revoked_certificates.push(
            RevokedCertificateView {
                certificate_id: certificate_id,
                issuer: v.issuer,
                revocation_date: now,
                reason: reason,
                invalidity_date: invalidity_date,
            },
        );
        (
            CrlView {
                issuer: v.issuer,
                this_update: now,
                next_update: v.next_update,
                revoked_certificates: entries,
                merkle_root: Some(merkle_root_of(entry_ids(entries))),
                crl_number: (v.crl_number + 1) as u64,
                authority_key_identifier: v.authority_key_identifier,
            },
            Ok(()),
        )
    }
}

/// The transition of `unrevoke_certificate`: authorization first, then
/// the membership check; on success the matching entry is removed with
/// the relative order of the rest preserved, `this_update` is refreshed,
/// the version is incremented and the commitment is recomputed. On
/// failure the state is unchanged.
pub open spec fn spec_unrevoke(
    v: CrlView,
    caller: Seq<u8>,
    certificate_id: Seq<u8>,
    now: u64,
) -> (CrlView, Result<(), CRLError>) {
    if caller != v.issuer {
        (v, Err(CRLError::Unauthorized))
    } else if !v.contains_id(certificate_id) {
        (v, Err(CRLError::NotFound))
    } else {
        let entries = v.revoked_certificates.remove(
            index_of_id(v.revoked_certificates, certificate_id),
        );
        (
            CrlView {
                issuer: v.issuer,
                this_update: now,
                next_update: v.next_update,
                revoked_certificates: entries,
                merkle_root: Some(merkle_root_of(entry_ids(entries))),
                crl_number: (v.crl_number + 1) as u64,
                authority_key_identifier: v.authority_key_identifier,
            },
            Ok(()),
        )
    }
}

/// The transition of `update_crl_metadata`: authorization first; any
/// supplied field overwrites the corresponding registry field, omitted
/// fields are left unchanged, and — whether or not any field was supplied
/// — `this_update` is refreshed and the version is incremented. The
/// entries and the commitment are untouched.
pub open spec fn spec_update_metadata(
    v: CrlView,
    caller: Seq<u8>,
    next_update: Option<u64>,
    authority_key_identifier: Option<Seq<u8>>,
    now: u64,
) -> (CrlView, Result<(), CRLError>) {
    if caller != v.issuer {
        (v, Err(CRLError::Unauthorized))
    } else {
        (
            CrlView {
                issuer: v.issuer,
                this_update: now,
                next_update: match next_update {
                    Some(n) => n,
                    None => v.next_update,
                },
                revoked_certificates: v.revoked_certificates,
                merkle_root: v.merkle_root,
                crl_number: (v.crl_number + 1) as u64,
                authority_key_identifier: match authority_key_identifier {
                    Some(k) => Some(k),
                    None => v.authority_key_identifier,
                },
            },
            Ok(()),
        )
    }
}

/// Pagination parameters of the listing query.
#[derive(Clone, Copy, Debug, PartialEq, Eq, Structural)]
pub struct Pagination {
    pub page: u32,
    pub limit: u32,
}

/// One page of revoked entries, with the total count and whether a
/// further page exists.
#[derive(Clone, Debug, PartialEq, Eq)]
pub struct PaginatedResult {
    pub data: Vec<RevokedCertificate>,
    pub total: u32,
    pub page: u32,
    pub limit: u32,
    pub has_next: bool,
}

/// The verification snapshot: a direct membership lookup combined with
/// the registry's current version and `this_update`. It is not a
/// cryptographic proof check against the commitment.
#[derive(Clone, Debug, PartialEq, Eq)]
pub struct VerificationResult {
    pub is_revoked: bool,
    pub revocation_info: Option<RevokedCertificate>,
    pub crl_number: u64,
    pub this_update: u64,
}

/// A deployed registry instance: one per authority.
#[derive(Clone, Debug, PartialEq, Eq)]
pub struct CRLContract {
    pub crl: CertificateRevocationList,
}

impl View for CRLContract {
    type V = CrlView;

    open spec fn view(&self) -> CrlView {
        self.crl@
    }
}

/// A fresh copy of a reason.
fn clone_reason(r: &RevocationReason) -> (c: RevocationReason)
    ensures
        c@ == r@,
{
    match r {
        RevocationReason::KeyCompromise => RevocationReason::KeyCompromise,
        RevocationReason::CACompromise => RevocationReason::CACompromise,
        RevocationReason::AffiliationChanged => RevocationReason::AffiliationChanged,
        RevocationReason::Superseded => RevocationReason::Superseded,
        RevocationReason::CessationOfOperation => RevocationReason::CessationOfOperation,
        RevocationReason::CertificateHold => RevocationReason::CertificateHold,
        RevocationReason::RemoveFromCRL => RevocationReason::RemoveFromCRL,
        RevocationReason::PrivilegeWithdrawn => RevocationReason::PrivilegeWithdrawn,
        RevocationReason::AACompromise => RevocationReason::AACompromise,
        RevocationReason::Other(v) => RevocationReason::Other(clone_bytes(v)),
    }
}

/// A fresh copy of an entry.
fn clone_entry(e: &RevokedCertificate) -> (c: RevokedCertificate)
    ensures
        c@ == e@,
{
    RevokedCertificate {
        certificate_id: clone_bytes(&e.certificate_id),
        issuer: clone_bytes(&e.issuer),
        revocation_date: e.revocation_date,
        reason: clone_reason(&e.reason),
        invalidity_date: e.invalidity_date,
    }
}

/// The identifiers of the entries, in order, as fresh byte vectors.
fn collect_ids(entries: &Vec<RevokedCertificate>) -> (ids: Vec<Vec<u8>>)
    ensures
        views_of(ids@) == entry_ids(entries_view(entries@)),
        ids@.len() == entries@.len(),
{
    let mut ids: Vec<Vec<u8>> = Vec::new();
    let n = entries.len();
    let mut i: usize = 0;
    while i < n
        invariant
            n == entries@.len(),
            i <= n,
            ids@.len() == i,
            views_of(ids@) =~= entry_ids(entries_view(entries@)).take(i as int),
        decreases n - i,
    {
        ids.push(clone_bytes(&entries[i].certificate_id));
        i = i + 1;
        assert(views_of(ids@) =~= entry_ids(entries_view(entries@)).take(i as int));
    }
    proof {
        assert(views_of(ids@) =~= entry_ids(entries_view(entries@)));
    }
    ids
}

impl CRLContract {
    /// Creates a fresh registry bound to `issuer` at time `now`. Note that
    /// creating a registry where one already exists replaces it entirely,
    /// entries included: the surrounding storage layer persists whatever
    /// registry value it is handed, and no guard against overwriting is
    /// imposed here. The commitment is computed at once, over the empty
    /// collection, so it is present and consistent from the first state
    /// on.
    pub fn initialize(env: &soroban_sdk::Env, issuer: Vec<u8>, now: u64) -> (c: CRLContract)
        requires
            now + NEXT_UPDATE_WINDOW <= u64::MAX,
        ensures
            c@ == spec_initialize(issuer@, now),
            c@.wf(),
    {
        let ids: Vec<Vec<u8>> = Vec::new();
        let root = build_merkle_root(env, &ids);
        let c = CRLContract {
            crl: CertificateRevocationList {
                issuer: issuer,
                this_update: now,
                next_update: now + NEXT_UPDATE_WINDOW,
                revoked_certificates: Vec::new(),
                merkle_root: Some(root),
                crl_number: 1,
                authority_key_identifier: None,
            },
        };
        proof {
            assert(views_of(ids@) =~= Seq::<Seq<u8>>::empty());
            assert(entries_view(c.crl.revoked_certificates@) =~= Seq::<RevokedCertificateView>::empty());
            assert(entry_ids(Seq::<RevokedCertificateView>::empty()) =~= Seq::<Seq<u8>>::empty());
            assert(c@ =~= spec_initialize(issuer@, now));
        }
        c
    }

    /// Adds `certificate_id` to the revocation list on behalf of
    /// `caller`, which must be the authenticated identity of the caller,
    /// and returns the entry it recorded. Fails with `Unauthorized` if
    /// `caller` is not the bound issuer, and with `AlreadyRevoked` if the
    /// identifier is already present; in either case the state is
    /// unchanged.
    #[verifier::loop_isolation(false)]
    pub fn revoke_certificate(
        &mut self,
        env: &soroban_sdk::Env,
        caller: &Vec<u8>,
        certificate_id: Vec<u8>,
        reason: RevocationReason,
        invalidity_date: Option<u64>,
        now: u64,
    ) -> (r: Result<RevokedCertificate, CRLError>)
        requires
            old(self)@.wf(),
            old(self)@.crl_number < u64::MAX,
            old(self)@.revoked_certificates.len() + 1 < usize::MAX,
        ensures
            final(self)@ == spec_revoke(
                old(self)@,
                caller@,
                certificate_id@,
                reason@,
                invalidity_date,
                now,
            ).0,
            r is Ok <==> spec_revoke(
                old(self)@,
                caller@,
                certificate_id@,
                reason@,
                invalidity_date,
                now,
            ).1 is Ok,
            r matches Err(e) ==> Err::<(), CRLError>(e) == spec_revoke(
                old(self)@,
                caller@,
                certificate_id@,
                reason@,
                invalidity_date,
                now,
            ).1,
            r matches Ok(entry) ==> entry@ == (RevokedCertificateView {
                certificate_id: certificate_id@,
                issuer: old(self)@.issuer,
                revocation_date: now,
                reason: reason@,
                invalidity_date: invalidity_date,
            }),
            final(self)@.wf(),
    {
        if !bytes_eq(caller, &self.crl.issuer) {
            return Err(CRLError::Unauthorized);
        }
        let n = self.crl.revoked_certificates.len();
        let mut i: usize = 0;
        while i < n
            invariant
                self.crl == old(self).crl,
                i <= n,
                forall|k: int|
                    0 <= k < i ==> self@.revoked_certificates[k].certificate_id
                        != certificate_id@,
            decreases n - i,
        {
            if bytes_eq(&self.crl.revoked_certificates[i].certificate_id, &certificate_id) {
                proof {
                    assert(self@.revoked_certificates[i as int].certificate_id
                        == self.crl.revoked_certificates@[i as int].certificate_id@);
                    assert(self@.contains_id(certificate_id@));
                }
                return Err(CRLError::AlreadyRevoked);
            }
            i = i + 1;
        }
        assert(!self@.contains_id(certificate_id@));

        let entry = RevokedCertificate {
            certificate_id: certificate_id,
            issuer: clone_bytes(&self.crl.issuer),
            revocation_date: now,
            reason: reason,
            invalidity_date: invalidity_date,
        };
        let recorded = clone_entry(&entry);
        self.crl.revoked_certificates.push(entry);
        self.crl.this_update = now;
        self.crl.crl_number = self.crl.crl_number + 1;
        let ids = collect_ids(&self.crl.revoked_certificates);
        let root = build_merkle_root(env, &ids);
        self.crl.merkle_root = Some(root);
        proof {
            let expected = spec_revoke(
                old(self)@,
                caller@,
                certificate_id@,
                reason@,
                invalidity_date,
                now,
            ).0;
            assert(entries_view(self.crl.revoked_certificates@) =~= expected.revoked_certificates);
            assert(self@ =~= expected);
            lemma_revoke_preserves_wf(old(self)@, caller@, certificate_id@, reason@, invalidity_date, now);
        }
        Ok(recorded)
    }

    /// Removes `certificate_id` from the revocation list on behalf of
    /// `caller`, preserving the relative order of the remaining entries.
    /// Fails with `Unauthorized` if `caller` is not the bound issuer, and
    /// with `NotFound` if the identifier is absent; in either case the
    /// state is unchanged.
    #[verifier::loop_isolation(false)]
    pub fn unrevoke_certificate(
        &mut self,
        env: &soroban_sdk::Env,
        caller: &Vec<u8>,
        certificate_id: &Vec<u8>,
        now: u64,
    ) -> (r: Result<(), CRLError>)
        requires
            old(self)@.wf(),
            old(self)@.crl_number < u64::MAX,
            old(self)@.revoked_certificates.len() < usize::MAX,
        ensures
            final(self)@ == spec_unrevoke(old(self)@, caller@, certificate_id@, now).0,
            r == spec_unrevoke(old(self)@, caller@, certificate_id@, now).1,
            final(self)@.wf(),
    {
        if !bytes_eq(caller, &self.crl.issuer) {
            return Err(CRLError::Unauthorized);
        }
        let n = self.crl.revoked_certificates.len();
        let mut i: usize = 0;
        while i < n
            invariant
                self.crl == old(self).crl,
                i <= n,
                forall|k: int|
                    0 <= k < i ==> self@.revoked_certificates[k].certificate_id
                        != certificate_id@,
            decreases n - i,
        {
            if bytes_eq(&self.crl.revoked_certificates[i].certificate_id, certificate_id) {
                proof {
                    assert(self@.revoked_certificates[i as int].certificate_id
                        == self.crl.revoked_certificates@[i as int].certificate_id@);
                    assert(self@.contains_id(certificate_id@));
                    lemma_index_of_id(old(self)@.revoked_certificates, certificate_id@);
                    assert(i as int == index_of_id(old(self)@.revoked_certificates, certificate_id@));
                }
                self.crl.revoked_certificates.remove(i);
                self.crl.this_update = now;
                self.crl.crl_number = self.crl.crl_number + 1;
                let ids = collect_ids(&self.crl.revoked_certificates);
                let root = build_merkle_root(env, &ids);
                self.crl.merkle_root = Some(root);
                proof {
                    let expected = spec_unrevoke(old(self)@, caller@, certificate_id@, now).0;
                    assert(entries_view(self.crl.revoked_certificates@) =~= expected
                        .revoked_certificates);
                    assert(self@ =~= expected);
                    lemma_unrevoke_preserves_wf(old(self)@, caller@, certificate_id@, now);
                }
                return Ok(());
            }
            i = i + 1;
        }
        assert(!self@.contains_id(certificate_id@));
        Err(CRLError::NotFound)
    }

    /// Overwrites the advisory `next_update` deadline and/or the
    /// authority key identifier, whichever is supplied, on behalf of
    /// `caller`. Even a call supplying neither refreshes `this_update`
    /// and counts as a new version. Fails with `Unauthorized` if `caller`
    /// is not the bound issuer, leaving the state unchanged.
    pub fn update_crl_metadata(
        &mut self,
        caller: &Vec<u8>,
        next_update: Option<u64>,
        authority_key_identifier: Option<Vec<u8>>,
        now: u64,
    ) -> (r: Result<(), CRLError>)
        requires
            old(self)@.wf(),
            old(self)@.crl_number < u64::MAX,
        ensures
            final(self)@ == spec_update_metadata(
                old(self)@,
                caller@,
                next_update,
                match authority_key_identifier {
                    Some(k) => Some(k@),
                    None => None,
                },
                now,
            ).0,
            r == spec_update_metadata(
                old(self)@,
                caller@,
                next_update,
                match authority_key_identifier {
                    Some(k) => Some(k@),
                    None => None,
                },
                now,
            ).1,
            final(self)@.wf(),
    {
        if !bytes_eq(caller, &self.crl.issuer) {
            return Err(CRLError::Unauthorized);
        }
        match next_update {
            Some(n) => {
                self.crl.next_update = n;
            },
            None => {},
        }
        match authority_key_identifier {
            Some(k) => {
                self.crl.authority_key_identifier = Some(k);
            },
            None => {},
        }
        self.crl.this_update = now;
        self.crl.crl_number = self.crl.crl_number + 1;
        proof {
            assert(self@ =~= spec_update_metadata(
                old(self)@,
                caller@,
                next_update,
                match authority_key_identifier {
                    Some(k) => Some(k@),
                    None => None,
                },
                now,
            ).0);
        }
        Ok(())
    }

    /// Whether `certificate_id` is currently revoked: a linear scan by
    /// identifier.
    pub fn is_revoked(&self, certificate_id: &Vec<u8>) -> (r: bool)
        ensures
            r == self@.contains_id(certificate_id@),
    {
        let n = self.crl.revoked_certificates.len();
        let mut i: usize = 0;
        while i < n
            invariant
                n == self.crl.revoked_certificates@.len(),
                i <= n,
                forall|k: int|
                    0 <= k < i ==> self@.revoked_certificates[k].certificate_id
                        != certificate_id@,
            decreases n - i,
        {
            if bytes_eq(&self.crl.revoked_certificates[i].certificate_id, certificate_id) {
                proof {
                    assert(self@.revoked_certificates[i as int].certificate_id
                        == self.crl.revoked_certificates@[i as int].certificate_id@);
                    assert(self@.contains_id(certificate_id@));
                }
                return true;
            }
            i = i + 1;
        }
        assert(!self@.contains_id(certificate_id@));
        false
    }

    /// The record revoking `certificate_id`, or `None` when it is not
    /// revoked.
    pub fn get_revocation_info(&self, certificate_id: &Vec<u8>) -> (r: Option<
        &RevokedCertificate,
    >)
        ensures
            r is Some <==> self@.contains_id(certificate_id@),
            r matches Some(e) ==> e@ == self@.revoked_certificates[index_of_id(
                self@.revoked_certificates,
                certificate_id@,
            )],
    {
        let n = self.crl.revoked_certificates.len();
        let mut i: usize = 0;
        while i < n
            invariant
                n == self.crl.revoked_certificates@.len(),
                i <= n,
                forall|k: int|
                    0 <= k < i ==> self@.revoked_certificates[k].certificate_id
                        != certificate_id@,
            decreases n - i,
        {
            if bytes_eq(&self.crl.revoked_certificates[i].certificate_id, certificate_id) {
                proof {
                    assert(self@.revoked_certificates[i as int].certificate_id
                        == self.crl.revoked_certificates@[i as int].certificate_id@);
                    assert(self@.contains_id(certificate_id@));
                    lemma_index_of_id(self@.revoked_certificates, certificate_id@);
                    assert(i as int == index_of_id(self@.revoked_certificates, certificate_id@));
                }
                return Some(&self.crl.revoked_certificates[i]);
            }
            i = i + 1;
        }
        assert(!self@.contains_id(certificate_id@));
        None
    }

    /// One page of the revocation list: `start = page * limit`, the slice
    /// `[start, min(start + limit, total))` in current order, an empty
    /// page once `start` passes the total, and `has_next` exactly when
    /// entries remain beyond the page. Page and limit magnitudes are
    /// unrestricted; the arithmetic is carried out without overflow.
    #[verifier::loop_isolation(false)]
    pub fn get_revoked_certificates(&self, pagination: Pagination) -> (r: PaginatedResult)
        requires
            self@.revoked_certificates.len() <= u32::MAX,
        ensures
            r.total == self@.revoked_certificates.len(),
            r.page == pagination.page,
            r.limit == pagination.limit,
            ({
                let total = self@.revoked_certificates.len() as int;
                let start = pagination.page as int * pagination.limit as int;
                let end = vstd::math::min(start + pagination.limit as int, total);
                &&& r.has_next == (end < total)
                &&& entries_view(r.data@) == (if start >= total {
                    Seq::<RevokedCertificateView>::empty()
                } else {
                    self@.revoked_certificates.subrange(start, end)
                })
            }),
    {
        let total: u64 = self.crl.revoked_certificates.len() as u64;
        proof {
            assert(pagination.page as int * pagination.limit as int <= 0xffff_ffff
                * 0xffff_ffff) by (nonlinear_arith)
                requires
                    pagination.page as int <= 0xffff_ffff,
                    pagination.limit as int <= 0xffff_ffff,
            ;
        }
        let start: u64 = pagination.page as u64 * pagination.limit as u64;
        let sum: u64 = start + pagination.limit as u64;
        let end: u64 = if sum < total {
            sum
        } else {
            total
        };
        let mut data: Vec<RevokedCertificate> = Vec::new();
        if start < total {
            let mut i: u64 = start;
            while i < end
                invariant
                    start <= i <= end,
                    end <= total,
                    entries_view(data@) =~= self@.revoked_certificates.subrange(
                        start as int,
                        i as int,
                    ),
                decreases end - i,
            {
                data.push(clone_entry(&self.crl.revoked_certificates[i as usize]));
                i = i + 1;
                assert(entries_view(data@) =~= self@.revoked_certificates.subrange(
                    start as int,
                    i as int,
                ));
            }
        }
        let r = PaginatedResult {
            data: data,
            total: total as u32,
            page: pagination.page,
            limit: pagination.limit,
            has_next: end < total,
        };
        proof {
            let stotal = self@.revoked_certificates.len() as int;
            let sstart = pagination.page as int * pagination.limit as int;
            let send = vstd::math::min(sstart + pagination.limit as int, stotal);
            assert(start as int == sstart);
            assert(end as int == send);
            if sstart >= stotal {
                assert(entries_view(r.data@) =~= Seq::<RevokedCertificateView>::empty());
            } else {
                assert(entries_view(r.data@) =~= self@.revoked_certificates.subrange(
                    sstart,
                    send,
                ));
            }
        }
        r
    }

    /// The full registry aggregate.
    pub fn get_crl_info(&self) -> (r: &CertificateRevocationList)
        ensures
            r == &self.crl,
    {
        &self.crl
    }

    /// The verification snapshot for `certificate_id`: membership, the
    /// revoking record if any, and the registry's current version and
    /// `this_update`.
    pub fn verify_certificate(&self, certificate_id: &Vec<u8>) -> (r: VerificationResult)
        ensures
            r.is_revoked == self@.contains_id(certificate_id@),
            r.crl_number == self@.crl_number,
            r.this_update == self@.this_update,
            r.revocation_info is Some <==> self@.contains_id(certificate_id@),
            r.revocation_info matches Some(e) ==> e@ == self@.revoked_certificates[index_of_id(
                self@.revoked_certificates,
                certificate_id@,
            )],
    {
        let info = self.get_revocation_info(certificate_id);
        let revocation_info = match info {
            Some(e) => Some(clone_entry(e)),
            None => None,
        };
        VerificationResult {
            is_revoked: revocation_info.is_some(),
            revocation_info: revocation_info,
            crl_number: self.crl.crl_number,
            this_update: self.crl.this_update,
        }
    }

    /// The cached commitment over the current entries.
    pub fn get_merkle_root(&self) -> (r: Option<&Vec<u8>>)
        ensures
            r is Some <==> self@.merkle_root is Some,
            r matches Some(h) ==> Some(h@) == self@.merkle_root,
    {
        match &self.crl.merkle_root {
            Some(h) => Some(h),
            None => None,
        }
    }

    /// The number of currently revoked certificates.
    pub fn get_revoked_count(&self) -> (n: u32)
        requires
            self@.revoked_certificates.len() <= u32::MAX,
        ensures
            n == self@.revoked_certificates.len(),
    {
        self.crl.revoked_certificates.len() as u32
    }

    /// Whether this registry value is well-formed: version seeded,
    /// identifiers unique, every entry revoked by the bound issuer, and
    /// the cached commitment equal to a recomputation over the entries in
    /// order. Values built by this type's own operations always are; a
    /// caller that obtained a registry from elsewhere — durable storage,
    /// say — can test it before mutating it.
    #[verifier::loop_isolation(false)]
    pub fn is_well_formed(&self, env: &soroban_sdk::Env) -> (r: bool)
        requires
            self@.revoked_certificates.len() < usize::MAX,
        ensures
            r == self@.wf(),
    {
        if self.crl.crl_number < 1 {
            return false;
        }
        let n = self.crl.revoked_certificates.len();
        let mut i: usize = 0;
        while i < n
            invariant
                i <= n,
                forall|a: int, b: int|
                    0 <= a < b < n && a < i ==> self@.revoked_certificates[a].certificate_id
                        != self@.revoked_certificates[b].certificate_id,
                forall|a: int|
                    0 <= a < i ==> (#[trigger] self@.revoked_certificates[a]).issuer
                        == self@.issuer,
            decreases n - i,
        {
            if !bytes_eq(&self.crl.revoked_certificates[i].issuer, &self.crl.issuer) {
                assert(self@.revoked_certificates[i as int].issuer != self@.issuer);
                return false;
            }
            let mut j: usize = i + 1;
            while j < n
                invariant
                    i < j <= n || (i + 1 == j && j > n),
                    i < n,
                    forall|b: int|
                        i < b < j ==> self@.revoked_certificates[i as int].certificate_id
                            != self@.revoked_certificates[b].certificate_id,
                decreases n - j,
            {
                if bytes_eq(
                    &self.crl.revoked_certificates[i].certificate_id,
                    &self.crl.revoked_certificates[j].certificate_id,
                ) {
                    assert(self@.revoked_certificates[i as int].certificate_id
                        == self@.revoked_certificates[j as int].certificate_id);
                    return false;
                }
                j = j + 1;
            }
            i = i + 1;
        }
        match &self.crl.merkle_root {
            None => false,
            Some(root) => {
                let ids = collect_ids(&self.crl.revoked_certificates);
                let expected = build_merkle_root(env, &ids);
                let ok = bytes_eq(root, &expected);
                proof {
                    if ok {
                        assert(self@.merkle_root == Some(merkle_root_of(self@.ids())));
                    } else {
                        assert(self@.merkle_root != Some(merkle_root_of(self@.ids())));
                    }
                }
                ok
            },
        }
    }

    /// Whether the advisory `next_update` deadline has been reached at
    /// time `now`. Purely advisory: it never triggers any action.
    pub fn needs_update(&self, now: u64) -> (r: bool)
        ensures
            r == (now >= self@.next_update),
    {
        now >= self.crl.next_update
    }
}

/// A successful revocation preserves well-formedness: the new identifier
/// was absent, so uniqueness holds; the new entry carries the issuer; and
/// the commitment is recomputed over the new order.
pub proof fn lemma_revoke_preserves_wf(
    v: CrlView,
    caller: Seq<u8>,
    certificate_id: Seq<u8>,
    reason: RevocationReasonView,
    invalidity_date: Option<u64>,
    now: u64,
)
    requires
        v.wf(),
        v.crl_number < u64::MAX,
    ensures
        spec_revoke(v, caller, certificate_id, reason, invalidity_date, now).0.wf(),
{
    let (w, r) = spec_revoke(v, caller, certificate_id, reason, invalidity_date, now);
    if caller == v.issuer && !v.contains_id(certificate_id) {
        assert(forall|i: int, j: int|
            0 <= i < j < w.revoked_certificates.len()
                ==> w.revoked_certificates[i].certificate_id
                != w.revoked_certificates[j].certificate_id);
    }
}

/// A successful un-revocation preserves well-formedness: removing an
/// entry keeps the remaining identifiers unique and their issuer intact,
/// and the commitment is recomputed over the new order.
pub proof fn lemma_unrevoke_preserves_wf(
    v: CrlView,
    caller: Seq<u8>,
    certificate_id: Seq<u8>,
    now: u64,
)
    requires
        v.wf(),
        v.crl_number < u64::MAX,
    ensures
        spec_unrevoke(v, caller, certificate_id, now).0.wf(),
{
    let (w, r) = spec_unrevoke(v, caller, certificate_id, now);
    if caller == v.issuer && v.contains_id(certificate_id) {
        lemma_index_of_id(v.revoked_certificates, certificate_id);
        let idx = index_of_id(v.revoked_certificates, certificate_id);
        assert(forall|i: int, j: int|
            0 <= i < j < w.revoked_certificates.len()
                ==> w.revoked_certificates[i].certificate_id
                != w.revoked_certificates[j].certificate_id);
        assert(forall|i: int|
            0 <= i < w.revoked_certificates.len()
                ==> (#[trigger] w.revoked_certificates[i]).issuer == w.issuer);
    }
}

/// A metadata update preserves well-formedness: the entries and the
/// commitment are untouched.
pub proof fn lemma_update_metadata_preserves_wf(
    v: CrlView,
    caller: Seq<u8>,
    next_update: Option<u64>,
    authority_key_identifier: Option<Seq<u8>>,
    now: u64,
)
    requires
        v.wf(),
        v.crl_number < u64::MAX,
    ensures
        spec_update_metadata(v, caller, next_update, authority_key_identifier, now).0.wf(),
{
}

} // verus!
