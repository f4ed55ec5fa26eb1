//! Choosing the base URL of a vendor among its endpoint tiers.

use vstd::prelude::*;
use crate::config::ProviderConfig;
use crate::error::{ErrorKind, ProviderError};
use crate::text::{owned, strip_trailing_slash, without_one_trailing_slash};

verus! {

/// The tiers a vendor may expose.
#[derive(Clone, Copy, Debug, PartialEq, Eq, Structural)]
pub enum EndpointTier {
    Default,
    CodingPlan,
    International,
}

/// The runtime preference: which alternate tiers the settings enable.
#[derive(Clone, Copy, Debug, PartialEq, Eq, Structural)]
pub struct EndpointPreference {
    pub use_coding_plan: bool,
    pub use_international: bool,
}

/// A URL as it is handed out: without one trailing slash.
pub open spec fn normalized(url: Seq<char>) -> Seq<char> {
    without_one_trailing_slash(url)
}

/// A tier's URL is usable where it is configured and something is left of
/// it once normalized.
pub open spec fn usable(url: Option<String>) -> bool {
    url matches Some(u) && normalized(u@).len() > 0
}

/// The tier that resolution settles on, if any. The precedence is fixed: the
/// coding-plan tier, then the international tier, then the default. An
/// alternate tier is taken where the preference enables it, the vendor
/// supports it and its URL is usable.
pub open spec fn chosen_tier(config: ProviderConfig, preference: EndpointPreference) -> Option<
    EndpointTier,
> {
    if preference.use_coding_plan && config.supports_coding_plan && usable(
        config.coding_plan_base_url,
    ) {
        Some(EndpointTier::CodingPlan)
    } else if preference.use_international && config.supports_international && usable(
        config.international_base_url,
    ) {
        Some(EndpointTier::International)
    } else if normalized(config.base_url@).len() > 0 {
        Some(EndpointTier::Default)
    } else {
        None
    }
}

/// The URL a vendor configures for a tier, as written.
pub open spec fn tier_url(config: ProviderConfig, tier: EndpointTier) -> Seq<char> {
    match tier {
        EndpointTier::Default => config.base_url@,
        EndpointTier::CodingPlan => config.coding_plan_base_url->0@,
        EndpointTier::International => config.international_base_url->0@,
    }
}

/// The base URL that resolution hands out, if any.
pub open spec fn resolved_url(config: ProviderConfig, preference: EndpointPreference) -> Option<
    Seq<char>,
> {
    match chosen_tier(config, preference) {
        Some(tier) => Some(normalized(tier_url(config, tier))),
        None => None,
    }
}

/// The message of the error that names the vendor without a usable URL.
pub open spec fn unresolved_message(config: ProviderConfig) -> Seq<char> {
    "No usable base URL configured for provider '"@ + config.id@ + "'"@
}

/// Resolves base URLs.
pub struct EndpointResolver {}

impl EndpointResolver {
    /// Normalizes an alternate tier's URL where the tier is enabled,
    /// supported and configured.
    fn alternate(enabled: bool, supported: bool, url: &Option<String>) -> (r: Option<String>)
        ensures
            match r {
                Some(u) => enabled && supported && usable(*url) && u@ == normalized(url->0@),
                None => !(enabled && supported && usable(*url)),
            },
    {
        if enabled && supported {
            match url {
                Some(u) => {
                    let n = strip_trailing_slash(u.as_str());
                    if n.as_str().unicode_len() > 0 {
                        Some(n)
                    } else {
                        None
                    }
                },
                None => None,
            }
        } else {
            None
        }
    }

    /// Returns exactly one base URL, normalized, by the fixed precedence of
    /// `chosen_tier`; fails with `EndpointUnresolved` exactly where no tier
    /// is usable.
    pub fn resolve(config: &ProviderConfig, preference: EndpointPreference) -> (r: Result<
        String,
        ProviderError,
    >)
        ensures
            match r {
                Ok(url) => resolved_url(*config, preference) == Some(url@),
                Err(e) => resolved_url(*config, preference) is None && e.is_plain(
                    ErrorKind::EndpointUnresolved,
                    unresolved_message(*config),
                ),
            },
    {
        match Self::alternate(
            preference.use_coding_plan,
            config.supports_coding_plan,
            &config.coding_plan_base_url,
        ) {
            Some(url) => {
                return Ok(url);
            },
            None => {},
        }
        match Self::alternate(
            preference.use_international,
            config.supports_international,
            &config.international_base_url,
        ) {
            Some(url) => {
                return Ok(url);
            },
            None => {},
        }
        let url = strip_trailing_slash(config.base_url.as_str());
        if url.as_str().unicode_len() > 0 {
            Ok(url)
        } else {
            let mut message = owned("No usable base URL configured for provider '");
            message.append(config.id.as_str());
            message.append("'");
            Err(ProviderError::plain(ErrorKind::EndpointUnresolved, message))
        }
    }
}

/// With no alternate tier configured, resolution hands out the default URL
/// without one trailing slash, whatever the preference.
pub proof fn law_default_only(config: ProviderConfig, preference: EndpointPreference)
    requires
        config.coding_plan_base_url is None,
        config.international_base_url is None,
        without_one_trailing_slash(config.base_url@).len() > 0,
    ensures
        resolved_url(config, preference) == Some(without_one_trailing_slash(config.base_url@)),
{
}

/// An alternate tier that is enabled, supported and usable is preferred over
/// the default; between the two alternates the coding-plan tier comes first.
pub proof fn law_alternate_preferred(config: ProviderConfig, preference: EndpointPreference)
    ensures
        preference.use_coding_plan && config.supports_coding_plan && usable(
            config.coding_plan_base_url,
        ) ==> resolved_url(config, preference) == Some(
            normalized(config.coding_plan_base_url->0@),
        ),
        !(preference.use_coding_plan && config.supports_coding_plan && usable(
            config.coding_plan_base_url,
        )) && preference.use_international && config.supports_international && usable(
            config.international_base_url,
        ) ==> resolved_url(config, preference) == Some(
            normalized(config.international_base_url->0@),
        ),
{
}

} // verus!
