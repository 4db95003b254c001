//! The error taxonomy of the registry core.
//!
//! Every operation that can fail reports one of these errors and never
//! retries internally: validation, integrity and conflict errors signal a
//! client data problem, while storage errors signal an environment
//! problem that only the caller is positioned to retry.

use vstd::prelude::*;

verus! {

/// Which shape rule a rejected invoice broke.
#[derive(Debug, Clone, Copy, PartialEq, Eq, Structural)]
pub enum ValidationIssue {
    /// The invoice name is empty.
    EmptyName,
    /// The invoice version is not a semantic version.
    MalformedVersion,
    /// A referenced parcel carries an incomplete label.
    MalformedLabel,
}

/// How a parcel upload disagreed with its declared label.
#[derive(Debug)]
pub enum IntegrityViolation {
    /// The digest computed over the uploaded bytes is not the digest the
    /// label declared.
    DigestMismatch { declared: String, computed: String },
    /// The uploaded byte count is not the size the label declared.
    SizeMismatch { declared_size: u64, actual_size: u64 },
}

/// An error surfaced by the registry core.
#[derive(Debug)]
pub enum RegistryError {
    /// The submitted invoice is malformed.
    Validation(ValidationIssue),
    /// An invoice already exists under the requested `(name, version)`
    /// key (possibly in yanked state); creation never overwrites.
    Conflict,
    /// Uploaded parcel content disagrees with its declared label.
    Integrity(IntegrityViolation),
    /// No invoice or parcel is stored under the requested key.
    NotFound,
    /// An underlying storage backend failed.  The in-memory stores of
    /// this crate never raise it; it is part of the taxonomy for the
    /// boundary layers that sit on durable backends.
    Storage,
}

} // verus!
