//! A certificate-revocation registry.
//!
//! An authority publishes the set of certificate identifiers it has revoked
//! together with a compact cryptographic commitment (a pairwise hash tree)
//! over that set, so relying parties can check revocation status and detect
//! tampering with the published list.
//!
//! The crate is organised as follows:
//! - [`bytes`] holds small verified helpers on byte vectors;
//! - [`hashing`] wraps the SHA-256 primitive of the host environment;
//! - [`merkle`] is the commitment builder, a pure reduction over a sequence
//!   of identifiers;
//! - [`crl`] is the revocation registry itself: its data model, its
//!   mutation/versioning protocol and its read-only query layer;
//! - [`laws`] states and proves the properties that hold across whole
//!   sequences of registry operations;
//! - [`metadata`] holds the metadata-schema version ordering and the pure
//!   core of metadata validation against a schema.
//!
//! Durable storage, authorization of callers and the current time are
//! collaborators of the registry, not part of it: every operation takes the
//! already-authenticated caller identity and the current time as plain
//! values, and returns the new state for the surrounding environment to
//! persist.

pub mod bytes;
pub mod crl;
pub mod hashing;
pub mod laws;
pub mod merkle;
pub mod metadata;
