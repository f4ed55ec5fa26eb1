//! A gateway core for large-language-model vendors: endpoint and credential
//! resolution, a shared wire dialect, and an incremental stream decoder whose
//! behaviour is stated in contracts and proved.
//!
//! The library does no input or output. What the outside world holds comes
//! in as plain values (the answer of the credential store, the preference
//! among endpoint tiers, the status and body of a response, the chunks of a
//! stream), and what is to be sent goes out as plain values.

pub mod text;
pub mod json;
pub mod error;
pub mod headers;
pub mod status;
pub mod config;
pub mod credentials;
pub mod endpoint;
pub mod stream;
pub mod protocol;
pub mod provider;
pub mod image;
pub mod lifecycle;

pub use config::{AuthType, ProtocolType, ProviderConfig, ProviderCredentials};
pub use credentials::{CredentialResolver, StoreAnswer};
pub use endpoint::{EndpointPreference, EndpointResolver, EndpointTier};
pub use error::{ErrorKind, ProviderError};
pub use headers::{Header, HeaderMap};
pub use image::{GeneratedImage, ImageGenerationRequest, ImageHttpRequest, VolcengineImageClient};
pub use json::{JsonMember, JsonNumber, JsonValue};
pub use lifecycle::{Progress, RequestPhase};
pub use protocol::{
    ChatMessage, HeaderBuildContext, OpenAiProtocol, RequestBuildContext, StreamParseContext,
};
pub use provider::{BaseProvider, KimiCodingProvider, Provider};
pub use stream::{
    apply_payload, parse_stream_event, StreamEvent, StreamParseState, ToolCall, ToolCallFragment,
    Usage,
};
