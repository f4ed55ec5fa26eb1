//! The static description of a vendor, and the credential found for it.

use vstd::prelude::*;
use crate::headers::HeaderMap;
use crate::json::JsonValue;

verus! {

/// The wire dialect a vendor speaks.
#[derive(Clone, Copy, Debug, PartialEq, Eq, Structural)]
pub enum ProtocolType {
    OpenAiCompatible,
    Claude,
}

/// How a vendor wants a credential presented.
#[derive(Clone, Copy, Debug, PartialEq, Eq, Structural)]
pub enum AuthType {
    /// The vendor takes no credential.
    Unauthenticated,
    /// `Authorization: Bearer <token>`.
    Bearer,
    /// `x-api-key: <token>`.
    ApiKey,
}

/// One vendor: its names, its dialect, its base URLs by tier, the name of
/// its credential, what it supports, and what it adds to every request.
#[derive(Debug)]
pub struct ProviderConfig {
    pub id: String,
    pub name: String,
    pub protocol: ProtocolType,
    pub base_url: String,
    pub api_key_name: String,
    pub supports_oauth: bool,
    pub supports_coding_plan: bool,
    pub supports_international: bool,
    pub coding_plan_base_url: Option<String>,
    pub international_base_url: Option<String>,
    pub headers: Option<HeaderMap>,
    pub extra_body: Option<JsonValue>,
    pub auth_type: AuthType,
}

/// The secret found for a vendor, or the fact that none is configured. The
/// type has no `Debug`: a secret is not to be printed.
#[derive(PartialEq, Eq)]
pub enum ProviderCredentials {
    Token(String),
    NotConfigured,
}

impl ProviderCredentials {
    /// The token, if there is one.
    pub open spec fn token(self) -> Option<Seq<char>> {
        match self {
            ProviderCredentials::Token(t) => Some(t@),
            ProviderCredentials::NotConfigured => None,
        }
    }
}

} // verus!
