//! Image generation with Volcengine: the request that goes out and the
//! reading of what comes back. Sending is the caller's part.

use vstd::prelude::*;
use vstd::string::*;
use vstd::utf8::{encode_utf8, is_ascii_chars, is_ascii_chars_encode_utf8};
use crate::config::{ProviderConfig, ProviderCredentials};
use crate::endpoint::{resolved_url, unresolved_message, EndpointPreference, EndpointResolver};
use crate::error::{attributed, opt_text, ErrorKind, ProviderError};
use crate::headers::{header_name_ok, header_problem, header_value_ok, HeaderMap};
use crate::json::{
    decode_json, items_model, items_of, json_decoding, members_model, push_member,
    unsigned_document, Json, JsonMember, JsonValue,
};
use crate::status::{is_success, reason_of, reason_text, status_line, status_text};
use crate::text::{joined, owned, trim_trailing_slashes, without_trailing_slashes};

verus! {

/// A normalized request for images.
#[derive(Debug, PartialEq, Eq)]
pub struct ImageGenerationRequest {
    pub prompt: String,
    pub size: Option<String>,
    pub quality: Option<String>,
    pub n: Option<u32>,
    pub response_format: Option<String>,
}

/// One generated image: its data inline or a URL to it, its content type,
/// and the prompt as the vendor revised it.
#[derive(Debug, PartialEq, Eq)]
pub struct GeneratedImage {
    pub b64_json: Option<String>,
    pub url: Option<String>,
    pub mime_type: String,
    pub revised_prompt: Option<String>,
}

/// The model of a generated image.
pub struct Image {
    pub b64_json: Option<Seq<char>>,
    pub url: Option<Seq<char>>,
    pub mime_type: Seq<char>,
    pub revised_prompt: Option<Seq<char>>,
}

impl View for GeneratedImage {
    type V = Image;

    open spec fn view(&self) -> Image {
        Image {
            b64_json: opt_text(self.b64_json),
            url: opt_text(self.url),
            mime_type: self.mime_type@,
            revised_prompt: opt_text(self.revised_prompt),
        }
    }
}

/// The models of a sequence of images.
pub open spec fn images_model(s: Seq<GeneratedImage>) -> Seq<Image> {
    Seq::new(s.len(), |i: int| s[i]@)
}

/// The request to send: where to, with which headers, and the body.
#[derive(Debug)]
pub struct ImageHttpRequest {
    pub url: String,
    pub headers: HeaderMap,
    pub body: JsonValue,
}

// ---------------------------------------------------------------------
// The request

/// The URL of the vendor's image endpoint under a base URL.
pub open spec fn image_url(base: Seq<char>) -> Seq<char> {
    without_trailing_slashes(base) + "/images/generations"@
}

/// The value of the `Authorization` header for a token.
pub open spec fn bearer(token: Seq<char>) -> Seq<char> {
    "Bearer "@ + token
}

/// The headers of an image request.
pub open spec fn image_headers(token: Seq<char>) -> Map<Seq<char>, Seq<char>> {
    Map::<Seq<char>, Seq<char>>::empty().insert("Content-Type"@, "application/json"@).insert(
        "Authorization"@,
        bearer(token),
    )
}

/// `members`, with a text under `name` where there is one.
pub open spec fn with_text(
    members: Seq<(Seq<char>, Json)>,
    name: Seq<char>,
    value: Option<Seq<char>>,
) -> Seq<(Seq<char>, Json)> {
    match value {
        Some(t) => members.push((name, Json::String(t))),
        None => members,
    }
}

/// `members`, with a number under `name` where there is one.
pub open spec fn with_count(
    members: Seq<(Seq<char>, Json)>,
    name: Seq<char>,
    value: Option<u32>,
) -> Seq<(Seq<char>, Json)> {
    match value {
        Some(n) => members.push((name, unsigned_document(n as u64))),
        None => members,
    }
}

/// The body of an image request: the model and the prompt, then each of
/// the size, the quality, the count and the response format that the
/// request sets, in that order.
pub open spec fn image_body(model: Seq<char>, request: ImageGenerationRequest) -> Json {
    let fixed = seq![("model"@, Json::String(model)), ("prompt"@, Json::String(request.prompt@))];
    Json::Object(
        with_text(
            with_count(
                with_text(
                    with_text(fixed, "size"@, opt_text(request.size)),
                    "quality"@,
                    opt_text(request.quality),
                ),
                "n"@,
                request.n,
            ),
            "response_format"@,
            opt_text(request.response_format),
        ),
    )
}

/// The message of the error for a vendor without a credential.
pub open spec fn not_configured_message() -> Seq<char> {
    "API key not configured for Volcengine image generation / Volcengine 图片生成未配置 API 密钥"@
}

/// The message of the error for a token that no header can carry, with the
/// vendor named behind it.
pub open spec fn bad_token_message(config: ProviderConfig) -> Seq<char> {
    attributed("Invalid header value for "@ + "Authorization"@, config.id@)
}

fn push_text(members: &mut Vec<JsonMember>, name: &str, value: &Option<String>)
    ensures
        members_model(final(members)@) == with_text(
            members_model(old(members)@),
            name@,
            opt_text(*value),
        ),
{
    match value {
        Some(t) => {
            push_member(members, name, JsonValue::text(t.as_str()));
        },
        None => {},
    }
}

/// The names and the fixed value of the image headers are such as the
/// transport takes.
proof fn lemma_fixed_headers_ok()
    ensures
        header_name_ok(encode_utf8("Content-Type"@)),
        header_name_ok(encode_utf8("Authorization"@)),
        header_value_ok(encode_utf8("application/json"@)),
        "Content-Type"@ != "Authorization"@,
{
    reveal_strlit("Content-Type");
    reveal_strlit("Authorization");
    reveal_strlit("application/json");
    assert(is_ascii_chars("Content-Type"@));
    assert(is_ascii_chars("Authorization"@));
    assert(is_ascii_chars("application/json"@));
    is_ascii_chars_encode_utf8("Content-Type"@);
    is_ascii_chars_encode_utf8("Authorization"@);
    is_ascii_chars_encode_utf8("application/json"@);
    assert("Content-Type"@[0] != "Authorization"@[0]);
}

// ---------------------------------------------------------------------
// The response

/// The text under `name`: missing or null is no text, and anything but a
/// text is a malformed item.
pub open spec fn optional_text(j: Json, name: Seq<char>) -> Option<Option<Seq<char>>> {
    match j.member(name) {
        None => Some(None),
        Some(Json::Null) => Some(None),
        Some(Json::String(s)) => Some(Some(s)),
        Some(_) => None,
    }
}

/// The image that an item of `data` stands for, if it is well formed: an
/// object whose `b64_json`, `url` and `revised_prompt` are texts where they
/// are there. The content type is always `image/png`.
pub open spec fn image_of(item: Json) -> Option<Image> {
    if item is Object && optional_text(item, "b64_json"@) is Some && optional_text(item, "url"@)
        is Some && optional_text(item, "revised_prompt"@) is Some {
        Some(
            Image {
                b64_json: optional_text(item, "b64_json"@)->0,
                url: optional_text(item, "url"@)->0,
                mime_type: "image/png"@,
                revised_prompt: optional_text(item, "revised_prompt"@)->0,
            },
        )
    } else {
        None
    }
}

/// The images that a payload stands for, if it is well formed: an object
/// whose `data` is an array of well-formed items.
pub open spec fn images_of(payload: Json) -> Option<Seq<Image>> {
    match items_of(payload.member("data"@)) {
        Some(items) => if forall|i: int| 0 <= i < items.len() ==> image_of(#[trigger] items[i])
            is Some {
            Some(Seq::new(items.len(), |i: int| image_of(items[i])->0))
        } else {
            None
        },
        None => None,
    }
}

/// The message of the error for a payload of another shape.
pub open spec fn unexpected_shape_message() -> Seq<char> {
    "Failed to parse Volcengine response: unexpected payload shape"@
}

/// The message of the error for a body that is no JSON document.
pub open spec fn undecodable_message(m: Seq<char>) -> Seq<char> {
    "Failed to parse Volcengine response: "@ + m
}

/// The message of the error for a status that is no success: the status
/// as it is written out with its reason phrase, and the body.
pub open spec fn upstream_message(
    status: u16,
    reason: Option<Seq<char>>,
    body: Seq<char>,
) -> Seq<char> {
    "Volcengine image generation failed ("@ + status_line(status, reason) + "): "@ + body
        + " / Volcengine 图片生成失败"@
}

fn read_optional_text(item: &JsonValue, name: &str) -> (r: Option<Option<String>>)
    ensures
        match r {
            Some(t) => optional_text(item@, name@) == Some(opt_text(t)),
            None => optional_text(item@, name@) is None,
        },
{
    match item.get(name) {
        None => Some(None),
        Some(v) => match v {
            JsonValue::Null => Some(None),
            JsonValue::String(s) => Some(Some(s.clone())),
            _ => None,
        },
    }
}

fn read_image(item: &JsonValue) -> (r: Option<GeneratedImage>)
    ensures
        match r {
            Some(image) => image_of(item@) == Some(image@),
            None => image_of(item@) is None,
        },
{
    if !item.is_object() {
        return None;
    }
    let b64_json = match read_optional_text(item, "b64_json") {
        Some(t) => t,
        None => {
            return None;
        },
    };
    let url = match read_optional_text(item, "url") {
        Some(t) => t,
        None => {
            return None;
        },
    };
    let revised_prompt = match read_optional_text(item, "revised_prompt") {
        Some(t) => t,
        None => {
            return None;
        },
    };
    Some(GeneratedImage { b64_json, url, mime_type: owned("image/png"), revised_prompt })
}

/// What reading a response comes to, given the reason phrase of the status
/// and what the body decodes to.
pub open spec fn response_outcome(
    status: u16,
    reason: Option<Seq<char>>,
    body: Seq<char>,
    decoded: Result<Json, Seq<char>>,
) -> Result<Seq<Image>, (ErrorKind, Seq<char>)> {
    if !is_success(status) {
        Err((ErrorKind::UpstreamError, upstream_message(status, reason, body)))
    } else {
        match decoded {
            Err(m) => Err((ErrorKind::ResponseParseFailed, undecodable_message(m))),
            Ok(j) => match images_of(j) {
                Some(images) => Ok(images),
                None => Err((ErrorKind::ResponseParseFailed, unexpected_shape_message())),
            },
        }
    }
}

/// The client for Volcengine's image generation.
#[derive(Debug)]
pub struct VolcengineImageClient {
    config: ProviderConfig,
}

impl VolcengineImageClient {
    /// The configuration that the client is bound to.
    pub closed spec fn bound_config(&self) -> ProviderConfig {
        self.config
    }

    /// Binds a configuration.
    pub fn new(config: ProviderConfig) -> (client: VolcengineImageClient)
        ensures
            client.bound_config() == config,
    {
        VolcengineImageClient { config }
    }

    /// The configuration.
    pub fn config(&self) -> (c: &ProviderConfig)
        ensures
            *c == self.bound_config(),
    {
        &self.config
    }

    /// The token of a credential. Without one the error is
    /// `CredentialMissing`; this is the first thing to decide, before
    /// anything else is looked up.
    pub fn require_token<'a>(credentials: &'a ProviderCredentials) -> (r: Result<
        &'a String,
        ProviderError,
    >)
        ensures
            match r {
                Ok(t) => credentials.token() == Some(t@),
                Err(e) => credentials.token() is None && e.is_plain(
                    ErrorKind::CredentialMissing,
                    not_configured_message(),
                ),
            },
    {
        match credentials {
            ProviderCredentials::Token(token) => Ok(token),
            ProviderCredentials::NotConfigured => Err(
                ProviderError::plain(
                    ErrorKind::CredentialMissing,
                    owned(
                        "API key not configured for Volcengine image generation / Volcengine 图片生成未配置 API 密钥",
                    ),
                ),
            ),
        }
    }

    /// Builds the request to send.
    ///
    /// The credential is looked at first: without one the call fails with
    /// `CredentialMissing` and nothing is built. Then the base URL is
    /// resolved (`EndpointUnresolved` where there is none), and the token
    /// must be one that a header can carry (`RequestBuildFailed`). The
    /// request then goes to `images/generations` under the base URL, with
    /// the content type and the bearer token as headers.
    pub fn prepare(
        &self,
        credentials: &ProviderCredentials,
        preference: EndpointPreference,
        model: &str,
        request: &ImageGenerationRequest,
    ) -> (r: Result<ImageHttpRequest, ProviderError>)
        ensures
            match r {
                Ok(out) => {
                    &&& credentials.token() matches Some(token)
                    &&& resolved_url(self.bound_config(), preference) matches Some(base)
                    &&& header_value_ok(encode_utf8(bearer(token)))
                    &&& out.url@ == image_url(base)
                    &&& out.headers@ == image_headers(token)
                    &&& out.body@ == image_body(model@, *request)
                },
                Err(e) => match credentials.token() {
                    None => e.is_plain(ErrorKind::CredentialMissing, not_configured_message()),
                    Some(token) => match resolved_url(self.bound_config(), preference) {
                        None => e.is_plain(
                            ErrorKind::EndpointUnresolved,
                            unresolved_message(self.bound_config()),
                        ),
                        Some(_) => !header_value_ok(encode_utf8(bearer(token))) && e.is_plain(
                            ErrorKind::RequestBuildFailed,
                            bad_token_message(self.bound_config()),
                        ),
                    },
                },
            },
    {
        let token = match Self::require_token(credentials) {
            Ok(token) => token,
            Err(e) => {
                return Err(e);
            },
        };
        let base = match EndpointResolver::resolve(&self.config, preference) {
            Ok(base) => base,
            Err(e) => {
                return Err(e);
            },
        };
        let mut url = trim_trailing_slashes(base.as_str());
        url.append("/images/generations");

        let mut members: Vec<JsonMember> = Vec::new();
        assert(members_model(members@) =~= Seq::empty());
        push_member(&mut members, "model", JsonValue::text(model));
        push_member(&mut members, "prompt", JsonValue::text(request.prompt.as_str()));
        assert(members_model(members@) =~= seq![
            ("model"@, Json::String(model@)),
            ("prompt"@, Json::String(request.prompt@)),
        ]);
        push_text(&mut members, "size", &request.size);
        push_text(&mut members, "quality", &request.quality);
        match request.n {
            Some(n) => {
                push_member(&mut members, "n", JsonValue::unsigned(n as u64));
            },
            None => {},
        }
        push_text(&mut members, "response_format", &request.response_format);
        let body = JsonValue::object(members);

        let mut headers = HeaderMap::new();
        headers.insert(owned("Content-Type"), owned("application/json"));
        headers.insert(owned("Authorization"), joined("Bearer ", token.as_str()));
        proof {
            lemma_fixed_headers_ok();
        }
        match headers.validate() {
            Ok(_) => {
                assert(headers@.contains_key("Authorization"@));
                assert(header_problem("Authorization"@, headers@["Authorization"@]) is None);
                Ok(ImageHttpRequest { url, headers, body })
            },
            Err(e) => {
                let ghost name = choose|name: Seq<char>|
                    headers@.contains_key(name) && #[trigger] header_problem(name, headers@[name])
                        == Some(e.message@);
                assert(name == "Authorization"@ || name == "Content-Type"@);
                Err(e.attribute(self.config.id.as_str()))
            },
        }
    }

    /// Reads the images out of a decoded payload: an object whose `data` is
    /// an array of objects. A payload of another shape is
    /// `ResponseParseFailed`.
    pub fn images_from(payload: &JsonValue) -> (r: Result<Vec<GeneratedImage>, ProviderError>)
        ensures
            match r {
                Ok(images) => images_of(payload@) == Some(images_model(images@)),
                Err(e) => images_of(payload@) is None && e.is_plain(
                    ErrorKind::ResponseParseFailed,
                    unexpected_shape_message(),
                ),
            },
    {
        let mut out: Vec<GeneratedImage> = Vec::new();
        let items = match payload.get("data") {
            Some(data) => match data.as_items() {
                Some(items) => Some(items),
                None => None,
            },
            None => None,
        };
        match items {
            Some(items) => {
                let mut i: usize = 0;
                while i < items.len()
                    invariant
                        i <= items@.len(),
                        out@.len() == i,
                        items_of(payload@.member("data"@)) == Some(items_model(items@)),
                        forall|k: int| 0 <= k < i ==> image_of(items@[k]@) == Some(out@[k]@),
                    decreases items@.len() - i,
                {
                    match read_image(&items[i]) {
                        Some(image) => {
                            out.push(image);
                        },
                        None => {
                            assert(image_of(items_model(items@)[i as int]) is None);
                            return Err(Self::unexpected_shape());
                        },
                    }
                    i += 1;
                }
                proof {
                    let all = items_model(items@);
                    assert forall|k: int| 0 <= k < all.len() implies image_of(#[trigger] all[k])
                        is Some by {
                        assert(image_of(items@[k]@) == Some(out@[k]@));
                    }
                    assert(images_model(out@) =~= Seq::new(
                        all.len(),
                        |k: int| image_of(all[k])->0,
                    ));
                }
                Ok(out)
            },
            None => Err(Self::unexpected_shape()),
        }
    }

    fn unexpected_shape() -> (e: ProviderError)
        ensures
            e.is_plain(ErrorKind::ResponseParseFailed, unexpected_shape_message()),
    {
        ProviderError::plain(
            ErrorKind::ResponseParseFailed,
            owned("Failed to parse Volcengine response: unexpected payload shape"),
        )
    }

    /// The error for a status that is no success, given the status's reason
    /// phrase: an `UpstreamError` that carries the status and the body.
    pub fn upstream_failure(status: u16, reason: &Option<String>, body: &str) -> (e: ProviderError)
        ensures
            e.kind == ErrorKind::UpstreamError,
            e.message@ == upstream_message(status, opt_text(*reason), body@),
            e.status == Some(status),
            opt_text(e.body) == Some(body@),
    {
        let mut message = owned("Volcengine image generation failed (");
        message.append(status_text(status, reason).as_str());
        message.append("): ");
        message.append(body);
        message.append(" / Volcengine 图片生成失败");
        ProviderError {
            kind: ErrorKind::UpstreamError,
            message,
            status: Some(status),
            body: Some(owned(body)),
        }
    }

    /// Reads what the vendor answered. A status outside 200 to 299 is an
    /// `UpstreamError` that carries the status and the body; a body that is
    /// no JSON document, or a document of another shape, is
    /// `ResponseParseFailed`; else the images come back, one for each item
    /// of `data`, in order.
    pub fn read_response(status: u16, body: &str) -> (r: Result<Vec<GeneratedImage>, ProviderError>)
        ensures
            match response_outcome(
                status,
                reason_of(status),
                body@,
                json_decoding(encode_utf8(body@)),
            ) {
                Ok(images) => r matches Ok(v) && images_model(v@) == images,
                Err((kind, message)) => r matches Err(e) && e.kind == kind && e.message@
                    == message && if is_success(status) {
                    e.status is None && e.body is None
                } else {
                    e.status == Some(status) && opt_text(e.body) == Some(body@)
                },
            },
    {
        if status < 200 || status > 299 {
            let reason = reason_text(status);
            return Err(Self::upstream_failure(status, &reason, body));
        }
        match decode_json(body.as_bytes()) {
            Err(m) => Err(
                ProviderError::plain(
                    ErrorKind::ResponseParseFailed,
                    joined("Failed to parse Volcengine response: ", m.as_str()),
                ),
            ),
            Ok(payload) => Self::images_from(&payload),
        }
    }
}

} // verus!
