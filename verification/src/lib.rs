//! Canonical interval representations for semantic-version requirements.
//!
//! A small requirement grammar — at most one lower-bound and one upper-bound
//! comparison predicate — is converted into a validated interval of versions
//! ([`range::UnaffectedRange`]), which can then be queried for overlap against
//! other such intervals. A separate half-open interval type
//! ([`osv::OsvRange`]) carries affected-version ranges in the canonical
//! `[start, end)` form used for export. Version precedence, including
//! pre-release ordering, follows the semantic-versioning specification.

pub mod osv;
pub mod range;
pub mod version;
