//! Providers: one vendor's configuration bound to its dialect, with the
//! vendor's own overrides.

use vstd::prelude::*;
use crate::config::{AuthType, ProtocolType, ProviderConfig, ProviderCredentials};
use crate::credentials::{CredentialResolver, StoreAnswer};
use crate::endpoint::{resolved_url, unresolved_message, EndpointPreference, EndpointResolver};
use crate::error::{attributed, ErrorKind, ProviderError};
use crate::headers::{all_accepted, names_a_problem, HeaderMap};
use crate::json::{opt_model, JsonValue};
use crate::protocol::{
    base_headers, request_document, vendor_headers, HeaderBuildContext, OpenAiProtocol,
    RequestBuildContext, StreamParseContext,
};
use crate::status::{is_success, judge_status, reason_of, reason_text, upstream_message};
use crate::stream::{malformed_message, step, Outcome, StreamEvent, StreamParseState};
use crate::text::{joined, owned};

verus! {

/// The message of the error for a credential that is missing: it names the
/// credential and the vendor.
pub open spec fn missing_key_message(config: ProviderConfig) -> Seq<char> {
    "API key '"@ + config.api_key_name@ + "' not found for provider '"@ + config.id@ + "'"@
}

/// The headers once the credential is applied: a bearer token goes under
/// `Authorization` behind `Bearer `, an API key under `x-api-key`, and a
/// vendor that takes no credential gets none.
pub open spec fn authorized(
    auth: AuthType,
    token: Seq<char>,
    headers: Map<Seq<char>, Seq<char>>,
) -> Map<Seq<char>, Seq<char>> {
    match auth {
        AuthType::Unauthenticated => headers,
        AuthType::Bearer => headers.insert("Authorization"@, "Bearer "@ + token),
        AuthType::ApiKey => headers.insert("x-api-key"@, token),
    }
}

/// What providers share: the configuration, and the resolution of endpoint
/// and credential that goes by it.
#[derive(Debug)]
pub struct BaseProvider {
    pub config: ProviderConfig,
}

impl BaseProvider {
    /// Binds a configuration.
    pub fn new(config: ProviderConfig) -> (base: BaseProvider)
        ensures
            base.config == config,
    {
        BaseProvider { config }
    }

    /// The base URL by the fixed precedence of the tiers, falling back to
    /// the default; `EndpointUnresolved` exactly where none is usable.
    pub fn resolve_base_url_with_fallback(&self, preference: EndpointPreference) -> (r: Result<
        String,
        ProviderError,
    >)
        ensures
            match r {
                Ok(url) => resolved_url(self.config, preference) == Some(url@),
                Err(e) => resolved_url(self.config, preference) is None && e.is_plain(
                    ErrorKind::EndpointUnresolved,
                    unresolved_message(self.config),
                ),
            },
    {
        EndpointResolver::resolve(&self.config, preference)
    }

    /// The credential that the store's answer stands for. A secret that is
    /// missing is an error here, of kind `CredentialMissing`, that names the
    /// credential and the vendor; a failure of the store is
    /// `TransportFailed`, with the store's message and the vendor named
    /// behind it.
    pub fn require_credentials(&self, answer: StoreAnswer) -> (r: Result<
        ProviderCredentials,
        ProviderError,
    >)
        ensures
            match answer {
                Ok(Some(secret)) => r matches Ok(c) && c.token() == Some(secret@),
                Ok(None) => r matches Err(e) && e.is_plain(
                    ErrorKind::CredentialMissing,
                    missing_key_message(self.config),
                ),
                Err(message) => r matches Err(e) && e.is_plain(
                    ErrorKind::TransportFailed,
                    attributed(message@, self.config.id@),
                ),
            },
    {
        match CredentialResolver::resolve(answer) {
            Ok(ProviderCredentials::Token(secret)) => Ok(ProviderCredentials::Token(secret)),
            Ok(ProviderCredentials::NotConfigured) => Err(self.missing_key()),
            Err(e) => Err(e.attribute(self.config.id.as_str())),
        }
    }

    /// The error for a credential that is missing, which names the
    /// credential and the vendor.
    pub fn missing_key(&self) -> (e: ProviderError)
        ensures
            e.is_plain(ErrorKind::CredentialMissing, missing_key_message(self.config)),
    {
        let mut message = owned("API key '");
        message.append(self.config.api_key_name.as_str());
        message.append("' not found for provider '");
        message.append(self.config.id.as_str());
        message.append("'");
        ProviderError::plain(ErrorKind::CredentialMissing, message)
    }

    /// Decides on a response by its status. A status from 200 to 299
    /// passes; any other is an `UpstreamError` that names the vendor and
    /// carries the status, written out with its reason phrase, and the body.
    pub fn check_status(&self, status: u16, body: &str) -> (r: Result<(), ProviderError>)
        ensures
            match r {
                Ok(_) => is_success(status),
                Err(e) => {
                    &&& !is_success(status)
                    &&& e.kind == ErrorKind::UpstreamError
                    &&& e.message@ == upstream_message(self.config.name@, status, reason_of(status))
                    &&& e.status == Some(status)
                    &&& crate::error::opt_text(e.body) == Some(body@)
                },
            },
    {
        if 200 <= status && status <= 299 {
            Ok(())
        } else {
            let reason = reason_text(status);
            judge_status(self.config.name.as_str(), status, &reason, body)
        }
    }

    /// Applies the credential to the headers in the vendor's scheme. A
    /// vendor that takes a credential cannot do without one: then the
    /// headers stay as they are and the error is `CredentialMissing`.
    pub fn authorize(&self, credentials: &ProviderCredentials, headers: &mut HeaderMap) -> (r:
        Result<(), ProviderError>)
        ensures
            match r {
                Ok(_) => if self.config.auth_type == AuthType::Unauthenticated {
                    final(headers)@ == old(headers)@
                } else {
                    credentials.token() matches Some(token) && final(headers)@ == authorized(
                        self.config.auth_type,
                        token,
                        old(headers)@,
                    )
                },
                Err(e) => self.config.auth_type != AuthType::Unauthenticated
                    && credentials.token() is None && final(headers)@ == old(headers)@
                    && e.is_plain(ErrorKind::CredentialMissing, missing_key_message(self.config)),
            },
    {
        match self.config.auth_type {
            AuthType::Unauthenticated => Ok(()),
            AuthType::Bearer => match credentials {
                ProviderCredentials::Token(token) => {
                    headers.insert(owned("Authorization"), joined("Bearer ", token.as_str()));
                    Ok(())
                },
                ProviderCredentials::NotConfigured => Err(self.missing_key()),
            },
            AuthType::ApiKey => match credentials {
                ProviderCredentials::Token(token) => {
                    headers.insert(owned("x-api-key"), token.clone());
                    Ok(())
                },
                ProviderCredentials::NotConfigured => Err(self.missing_key()),
            },
        }
    }
}

/// The one interface behind which every vendor stands.
///
/// What the outside world holds (the settings, the credential store) comes
/// in as plain values: the preference among the tiers, and the store's
/// answer to the lookup of the credential.
pub trait Provider {
    /// The configuration that the provider is bound to.
    spec fn bound_config(&self) -> ProviderConfig;

    /// The vendor's identifier.
    fn id(&self) -> (r: &str)
        ensures
            r@ == self.bound_config().id@,
    ;

    /// The vendor's display name.
    fn name(&self) -> (r: &str)
        ensures
            r@ == self.bound_config().name@,
    ;

    /// The dialect the vendor speaks.
    fn protocol_type(&self) -> (r: ProtocolType)
        ensures
            r == self.bound_config().protocol,
    ;

    /// The configuration.
    fn config(&self) -> (r: &ProviderConfig)
        ensures
            *r == self.bound_config(),
    ;

    /// The base URL to call. A provider selects among its tiers in its own
    /// way; what it hands out is never empty, and its only failure is
    /// `EndpointUnresolved`.
    fn resolve_base_url(&self, preference: EndpointPreference) -> (r: Result<String, ProviderError>)
        ensures
            match r {
                Ok(url) => url@.len() > 0,
                Err(e) => e.kind == ErrorKind::EndpointUnresolved,
            },
    ;

    /// The credential. Where the store holds none under the vendor's
    /// credential name the failure is `CredentialMissing`, never a
    /// transport error; only a failure of the store is `TransportFailed`.
    fn get_credentials(&self, answer: StoreAnswer) -> (r: Result<
        ProviderCredentials,
        ProviderError,
    >)
        ensures
            match answer {
                Ok(Some(secret)) => r matches Ok(c) && c.token() == Some(secret@),
                Ok(None) => r matches Err(e) && e.kind == ErrorKind::CredentialMissing,
                Err(_) => r matches Err(e) && e.kind == ErrorKind::TransportFailed,
            },
    ;

    /// Lays the vendor's own headers over those that are there. Every name
    /// that was there stays; where the vendor names a header too, its value
    /// wins.
    fn add_provider_headers(&self, headers: &mut HeaderMap) -> (r: Result<(), ProviderError>)
        ensures
            r is Ok ==> old(headers)@.dom().subset_of(final(headers)@.dom()),
    ;

    /// The headers of the dialect and of the vendor's configuration. Every
    /// header that the configuration sets is in the result, with its value.
    fn build_protocol_headers(&self, ctx: HeaderBuildContext) -> (headers: HeaderMap)
        ensures
            forall|name: Seq<char>|
                vendor_headers(*ctx.config).contains_key(name) ==> headers@.contains_key(name)
                    && #[trigger] headers@[name] == vendor_headers(*ctx.config)[name],
    ;

    /// The body of a request in the dialect; its only failure is
    /// `RequestBuildFailed`.
    fn build_protocol_request(&self, ctx: RequestBuildContext) -> (r: Result<
        JsonValue,
        ProviderError,
    >)
        ensures
            r matches Err(e) ==> e.kind == ErrorKind::RequestBuildFailed,
    ;

    /// Takes one chunk of the stream in and yields at most one event. On a
    /// terminal state nothing is yielded and nothing changes.
    fn parse_protocol_stream_event(
        &self,
        ctx: StreamParseContext,
        state: &mut StreamParseState,
    ) -> (r: Result<Option<StreamEvent>, ProviderError>)
        ensures
            old(state)@.terminal ==> final(state)@ == old(state)@ && r matches Ok(None),
    ;
}

/// The headers of a request once everything is laid over them, if the
/// credential allows: the dialect and the configuration, then the
/// credential, then the provider's own overrides.
pub open spec fn layered_headers(config: ProviderConfig, token: Option<Seq<char>>) -> Option<
    Map<Seq<char>, Seq<char>>,
> {
    if config.auth_type == AuthType::Unauthenticated {
        Some(kimi_overrides(base_headers(config)))
    } else {
        match token {
            Some(t) => Some(kimi_overrides(authorized(config.auth_type, t, base_headers(config)))),
            None => None,
        }
    }
}

/// Whether the result of a parse call is what the outcome says, a failure
/// naming the vendor behind its message.
pub open spec fn result_names(
    r: Result<Option<StreamEvent>, ProviderError>,
    o: Outcome,
    vendor: Seq<char>,
) -> bool {
    match o {
        Outcome::Nothing => r matches Ok(None),
        Outcome::Yield(e) => r matches Ok(Some(x)) && x@ == e,
        Outcome::Malformed(m) => r matches Err(e) && e.is_plain(
            ErrorKind::ResponseParseFailed,
            attributed(malformed_message(m), vendor),
        ),
    }
}

/// The header by which the coding-plan endpoint knows its client.
pub open spec fn kimi_overrides(headers: Map<Seq<char>, Seq<char>>) -> Map<Seq<char>, Seq<char>> {
    headers.insert("User-Agent"@, "KimiCLI/1.3"@)
}

/// The provider of the Kimi coding plan: the OpenAI-compatible dialect, and
/// a fixed client identification on every request.
#[derive(Debug)]
pub struct KimiCodingProvider {
    base: BaseProvider,
    protocol: OpenAiProtocol,
}

impl KimiCodingProvider {
    /// Binds the configuration to the dialect.
    pub fn new(config: ProviderConfig) -> (p: KimiCodingProvider)
        ensures
            p.bound_config() == config,
    {
        KimiCodingProvider { base: BaseProvider::new(config), protocol: OpenAiProtocol {  } }
    }

    /// The headers of a request, in the fixed order: those of the dialect
    /// and the configuration first, then the credential, and the provider's
    /// own overrides last. They are handed out only if the transport takes
    /// every one of them; else the error is `RequestBuildFailed` and says
    /// what is wrong with one of them, and for which vendor.
    pub fn request_headers(&self, credentials: &ProviderCredentials) -> (r: Result<
        HeaderMap,
        ProviderError,
    >)
        ensures
            match layered_headers(self.bound_config(), credentials.token()) {
                None => r matches Err(e) && e.is_plain(
                    ErrorKind::CredentialMissing,
                    missing_key_message(self.bound_config()),
                ),
                Some(layered) => match r {
                    Ok(headers) => headers@ == layered && all_accepted(layered),
                    Err(e) => !all_accepted(layered) && e.is_plain(
                        ErrorKind::RequestBuildFailed,
                        e.message@,
                    ) && exists|problem: Seq<char>|
                        names_a_problem(layered, problem) && e.message@ == #[trigger] attributed(
                            problem,
                            self.bound_config().id@,
                        ),
                },
            },
    {
        let mut headers = self.build_protocol_headers(HeaderBuildContext { config: self.config() });
        match self.base.authorize(credentials, &mut headers) {
            Ok(_) => {},
            Err(e) => {
                return Err(e);
            },
        }
        match self.add_provider_headers(&mut headers) {
            Ok(_) => {},
            Err(e) => {
                return Err(e);
            },
        }
        match headers.validate() {
            Ok(_) => Ok(headers),
            Err(e) => {
                let ghost problem = e.message@;
                let named = e.attribute(self.base.config.id.as_str());
                assert(names_a_problem(headers@, problem) && named.message@ == attributed(
                    problem,
                    self.bound_config().id@,
                ));
                Err(named)
            },
        }
    }

    /// Decides on a response by its status, as `BaseProvider::check_status`
    /// does.
    pub fn check_status(&self, status: u16, body: &str) -> (r: Result<(), ProviderError>)
        ensures
            match r {
                Ok(_) => is_success(status),
                Err(e) => {
                    &&& !is_success(status)
                    &&& e.kind == ErrorKind::UpstreamError
                    &&& e.message@ == upstream_message(
                        self.bound_config().name@,
                        status,
                        reason_of(status),
                    )
                    &&& e.status == Some(status)
                    &&& crate::error::opt_text(e.body) == Some(body@)
                },
            },
    {
        self.base.check_status(status, body)
    }
}

impl Provider for KimiCodingProvider {
    closed spec fn bound_config(&self) -> ProviderConfig {
        self.base.config
    }

    fn id(&self) -> (r: &str) {
        self.base.config.id.as_str()
    }

    fn name(&self) -> (r: &str) {
        self.base.config.name.as_str()
    }

    fn protocol_type(&self) -> (r: ProtocolType) {
        self.base.config.protocol
    }

    fn config(&self) -> (r: &ProviderConfig) {
        &self.base.config
    }

    fn resolve_base_url(&self, preference: EndpointPreference) -> (r: Result<String, ProviderError>)
        ensures
            match r {
                Ok(url) => resolved_url(self.bound_config(), preference) == Some(url@),
                Err(e) => resolved_url(self.bound_config(), preference) is None && e.is_plain(
                    ErrorKind::EndpointUnresolved,
                    unresolved_message(self.bound_config()),
                ),
            },
    {
        self.base.resolve_base_url_with_fallback(preference)
    }

    fn get_credentials(&self, answer: StoreAnswer) -> (r: Result<
        ProviderCredentials,
        ProviderError,
    >)
        ensures
            answer matches Ok(None) ==> r matches Err(e) && e.is_plain(
                ErrorKind::CredentialMissing,
                missing_key_message(self.bound_config()),
            ),
            answer matches Err(message) ==> r matches Err(e) && e.is_plain(
                ErrorKind::TransportFailed,
                attributed(message@, self.bound_config().id@),
            ),
    {
        self.base.require_credentials(answer)
    }

    fn add_provider_headers(&self, headers: &mut HeaderMap) -> (r: Result<(), ProviderError>)
        ensures
            r is Ok,
            final(headers)@ == kimi_overrides(old(headers)@),
    {
        headers.insert(owned("User-Agent"), owned("KimiCLI/1.3"));
        Ok(())
    }

    fn build_protocol_headers(&self, ctx: HeaderBuildContext) -> (headers: HeaderMap)
        ensures
            headers@ == base_headers(*ctx.config),
    {
        self.protocol.build_base_headers(ctx)
    }

    fn build_protocol_request(&self, ctx: RequestBuildContext) -> (r: Result<
        JsonValue,
        ProviderError,
    >)
        ensures
            match r {
                Ok(body) => ctx.model@.len() > 0 && ctx.messages@.len() > 0 && body@
                    == request_document(
                    ctx.model@,
                    ctx.messages@,
                    ctx.stream,
                    ctx.max_tokens,
                    opt_model(ctx.extra_body),
                ),
                Err(e) => if ctx.model@.len() == 0 {
                    e.is_plain(
                        ErrorKind::RequestBuildFailed,
                        attributed("model is required"@, self.bound_config().id@),
                    )
                } else {
                    ctx.messages@.len() == 0 && e.is_plain(
                        ErrorKind::RequestBuildFailed,
                        attributed("messages are required"@, self.bound_config().id@),
                    )
                },
            },
    {
        match self.protocol.build_request(ctx) {
            Ok(body) => Ok(body),
            Err(e) => Err(e.attribute(self.base.config.id.as_str())),
        }
    }

    fn parse_protocol_stream_event(
        &self,
        ctx: StreamParseContext,
        state: &mut StreamParseState,
    ) -> (r: Result<Option<StreamEvent>, ProviderError>)
        ensures
            final(state)@ == step(old(state)@, ctx.chunk@).0,
            result_names(r, step(old(state)@, ctx.chunk@).1, self.bound_config().id@),
    {
        match self.protocol.parse_stream_event(ctx, state) {
            Ok(event) => Ok(event),
            Err(e) => Err(e.attribute(self.base.config.id.as_str())),
        }
    }
}

/// A provider's override wins: whatever the dialect, the configuration or
/// the credential put under `User-Agent`, the request goes out with the
/// provider's own value.
pub proof fn law_override_wins(headers: Map<Seq<char>, Seq<char>>)
    ensures
        kimi_overrides(headers).contains_key("User-Agent"@),
        kimi_overrides(headers)["User-Agent"@] == "KimiCLI/1.3"@,
        forall|name: Seq<char>|
            name != "User-Agent"@ && headers.contains_key(name) ==> kimi_overrides(
                headers,
            ).contains_key(name) && #[trigger] kimi_overrides(headers)[name] == headers[name],
{
}

} // verus!
