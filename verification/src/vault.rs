//! Error taxonomy for secret-store operations. The store itself is an
//! external collaborator; this classification is what the rest of the
//! system matches on.

use vstd::prelude::*;

verus! {

/// One secret-store failure, classified.
#[derive(Debug, Clone)]
pub enum VaultError {
    ConfigError(String),
    ClientError(String),
    RequestError(String),
    ParseError(String),
    VaultUnavailable,
    SecretNotFound(String),
    FieldNotFound(String),
    NoDataInSecret,
    CredentialsFailed(String),
    LeaseRenewalFailed(String),
    LeaseRevokeFailed(String),
}

} // verus!
