//! Turning the answer of the credential store into a credential.

use vstd::prelude::*;
use crate::config::{ProviderConfig, ProviderCredentials};
use crate::error::{ErrorKind, ProviderError};

verus! {

/// What a store answered to a lookup by name: the secret, the fact that the
/// name holds none, or the store's own failure.
pub type StoreAnswer = Result<Option<String>, String>;

/// The credential that a store answer stands for, where the store answered.
pub open spec fn credential_of(answer: StoreAnswer) -> Option<Option<Seq<char>>> {
    match answer {
        Ok(Some(secret)) => Some(Some(secret@)),
        Ok(None) => Some(None),
        Err(_) => None,
    }
}

/// Resolves the credential of a vendor from what the store holds under the
/// vendor's credential name.
pub struct CredentialResolver {}

impl CredentialResolver {
    /// The name under which the store holds the vendor's secret.
    pub fn lookup_name(config: &ProviderConfig) -> (name: &str)
        ensures
            name@ == config.api_key_name@,
    {
        config.api_key_name.as_str()
    }

    /// A secret becomes a token and a missing one the distinguished `NotConfigured`;
    /// only a failure of the store itself is an error, of kind
    /// `TransportFailed`, with the store's message.
    pub fn resolve(answer: StoreAnswer) -> (r: Result<ProviderCredentials, ProviderError>)
        ensures
            match answer {
                Ok(found) => r is Ok && r->Ok_0.token() == credential_of(answer)->0,
                Err(message) => r is Err && r->Err_0.is_plain(
                    ErrorKind::TransportFailed,
                    message@,
                ),
            },
    {
        match answer {
            Ok(Some(secret)) => Ok(ProviderCredentials::Token(secret)),
            Ok(None) => Ok(ProviderCredentials::NotConfigured),
            Err(message) => Err(ProviderError::plain(ErrorKind::TransportFailed, message)),
        }
    }
}

} // verus!
