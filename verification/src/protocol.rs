//! The OpenAI-compatible wire dialect: its headers, its request body and
//! its stream.

use vstd::prelude::*;
use crate::config::ProviderConfig;
use crate::error::{ErrorKind, ProviderError};
use crate::headers::HeaderMap;
use crate::json::{
    first_member, has_member, members_model, opt_model, push_member, unsigned_document, Json,
    JsonMember, JsonValue,
};
use crate::stream::{parse_stream_event, result_is, step, StreamEvent, StreamParseState};
use crate::text::owned;

verus! {

/// One message of a conversation.
#[derive(Debug, PartialEq, Eq)]
pub struct ChatMessage {
    pub role: String,
    pub content: String,
}

/// What the headers of a request are built from.
pub struct HeaderBuildContext<'a> {
    pub config: &'a ProviderConfig,
}

/// What the body of a request is built from: the normalized request, and
/// the fields that the vendor adds by default.
pub struct RequestBuildContext<'a> {
    pub model: &'a str,
    pub messages: &'a Vec<ChatMessage>,
    pub stream: bool,
    pub max_tokens: Option<u32>,
    pub extra_body: Option<&'a JsonValue>,
}

/// One chunk of a stream as it came off the wire.
pub struct StreamParseContext<'a> {
    pub chunk: &'a [u8],
}

/// The headers that the dialect fixes.
pub open spec fn dialect_headers() -> Map<Seq<char>, Seq<char>> {
    Map::<Seq<char>, Seq<char>>::empty().insert("Content-Type"@, "application/json"@)
}

/// The headers a vendor adds by default.
pub open spec fn vendor_headers(config: ProviderConfig) -> Map<Seq<char>, Seq<char>> {
    match config.headers {
        Some(h) => h@,
        None => Map::empty(),
    }
}

/// The headers of a request before authentication: those of the dialect,
/// then those of the vendor, which win where both name a header.
pub open spec fn base_headers(config: ProviderConfig) -> Map<Seq<char>, Seq<char>> {
    dialect_headers().union_prefer_right(vendor_headers(config))
}

/// The document of one message.
pub open spec fn message_document(m: ChatMessage) -> Json {
    Json::Object(seq![("role"@, Json::String(m.role@)), ("content"@, Json::String(m.content@))])
}

/// The documents of the messages, in order.
pub open spec fn message_documents(messages: Seq<ChatMessage>) -> Seq<Json> {
    Seq::new(messages.len(), |i: int| message_document(messages[i]))
}

/// The members that the normalized request itself gives the body.
pub open spec fn core_members(
    model: Seq<char>,
    messages: Seq<ChatMessage>,
    stream: bool,
    max_tokens: Option<u32>,
) -> Seq<(Seq<char>, Json)> {
    let fixed = seq![
        ("model"@, Json::String(model)),
        ("messages"@, Json::Array(message_documents(messages))),
        ("stream"@, Json::Bool(stream)),
    ];
    match max_tokens {
        Some(n) => fixed.push(("max_tokens"@, unsigned_document(n as u64))),
        None => fixed,
    }
}

/// The members of a document of defaults: those of an object, none of
/// anything else.
pub open spec fn default_members(extra: Option<Json>) -> Seq<(Seq<char>, Json)> {
    match extra {
        Some(Json::Object(members)) => members,
        _ => Seq::empty(),
    }
}

/// `members`, followed by each default whose name is not there yet.
pub open spec fn with_defaults(
    members: Seq<(Seq<char>, Json)>,
    defaults: Seq<(Seq<char>, Json)>,
) -> Seq<(Seq<char>, Json)>
    decreases defaults.len(),
{
    if defaults.len() == 0 {
        members
    } else {
        let before = with_defaults(members, defaults.drop_last());
        if first_member(before, defaults.last().0) is Some {
            before
        } else {
            before.push(defaults.last())
        }
    }
}

/// The body of a chat request in this dialect.
pub open spec fn request_document(
    model: Seq<char>,
    messages: Seq<ChatMessage>,
    stream: bool,
    max_tokens: Option<u32>,
    extra: Option<Json>,
) -> Json {
    Json::Object(
        with_defaults(core_members(model, messages, stream, max_tokens), default_members(extra)),
    )
}

/// Adds to `members` each default whose name is not there yet.
pub fn add_defaults(members: &mut Vec<JsonMember>, extra: Option<&JsonValue>)
    ensures
        members_model(final(members)@) == with_defaults(
            members_model(old(members)@),
            default_members(opt_model(extra)),
        ),
{
    let ghost before = members_model(members@);
    match extra {
        Some(x) => match x.as_members() {
            Some(defaults) => {
                let ghost all = members_model(defaults@);
                let mut i: usize = 0;
                while i < defaults.len()
                    invariant
                        i <= defaults@.len(),
                        all == members_model(defaults@),
                        members_model(members@) == with_defaults(before, all.take(i as int)),
                    decreases defaults@.len() - i,
                {
                    assert(all.take(i + 1).drop_last() =~= all.take(i as int));
                    assert(all.take(i + 1).last() == all[i as int]);
                    if !has_member(members, defaults[i].name.as_str()) {
                        push_member(
                            members,
                            defaults[i].name.as_str(),
                            defaults[i].value.duplicate(),
                        );
                    }
                    i += 1;
                }
                assert(all.take(i as int) =~= all);
            },
            None => {},
        },
        None => {},
    }
}

fn message_value(m: &ChatMessage) -> (r: JsonValue)
    ensures
        r@ == message_document(*m),
{
    let mut members: Vec<JsonMember> = Vec::new();
    assert(members_model(members@) =~= Seq::empty());
    push_member(&mut members, "role", JsonValue::text(m.role.as_str()));
    push_member(&mut members, "content", JsonValue::text(m.content.as_str()));
    assert(members_model(members@) =~= seq![
        ("role"@, Json::String(m.role@)),
        ("content"@, Json::String(m.content@)),
    ]);
    JsonValue::object(members)
}

fn message_values(messages: &Vec<ChatMessage>) -> (r: JsonValue)
    ensures
        r@ == Json::Array(message_documents(messages@)),
{
    let mut out: Vec<JsonValue> = Vec::new();
    let mut i: usize = 0;
    while i < messages.len()
        invariant
            i <= messages@.len(),
            out@.len() == i,
            forall|k: int| 0 <= k < i ==> out@[k]@ == message_document(messages@[k]),
        decreases messages@.len() - i,
    {
        out.push(message_value(&messages[i]));
        i += 1;
    }
    assert(crate::json::items_model(out@) =~= message_documents(messages@));
    JsonValue::array(out)
}

/// The OpenAI-compatible dialect. It holds no state: every vendor that
/// speaks the dialect shares it.
#[derive(Clone, Copy, Debug, PartialEq, Eq, Structural)]
pub struct OpenAiProtocol {}

impl OpenAiProtocol {
    /// The headers of the dialect and of the vendor, without authentication.
    pub fn build_base_headers(&self, ctx: HeaderBuildContext) -> (headers: HeaderMap)
        ensures
            headers@ == base_headers(*ctx.config),
    {
        let mut headers = HeaderMap::new();
        headers.insert(owned("Content-Type"), owned("application/json"));
        match &ctx.config.headers {
            Some(extra) => {
                headers.extend(extra);
            },
            None => {
                assert(dialect_headers().union_prefer_right(Map::empty()) =~= dialect_headers());
            },
        }
        headers
    }

    /// The body of a chat request. A request without a model or without
    /// messages cannot be built.
    pub fn build_request(&self, ctx: RequestBuildContext) -> (r: Result<JsonValue, ProviderError>)
        ensures
            match r {
                Ok(body) => ctx.model@.len() > 0 && ctx.messages@.len() > 0 && body@
                    == request_document(
                    ctx.model@,
                    ctx.messages@,
                    ctx.stream,
                    ctx.max_tokens,
                    opt_model(ctx.extra_body),
                ),
                Err(e) => if ctx.model@.len() == 0 {
                    e.is_plain(ErrorKind::RequestBuildFailed, "model is required"@)
                } else {
                    ctx.messages@.len() == 0 && e.is_plain(
                        ErrorKind::RequestBuildFailed,
                        "messages are required"@,
                    )
                },
            },
    {
        if ctx.model.is_empty() {
            return Err(
                ProviderError::plain(ErrorKind::RequestBuildFailed, owned("model is required")),
            );
        }
        if ctx.messages.len() == 0 {
            return Err(
                ProviderError::plain(
                    ErrorKind::RequestBuildFailed,
                    owned("messages are required"),
                ),
            );
        }
        let mut members: Vec<JsonMember> = Vec::new();
        assert(members_model(members@) =~= Seq::empty());
        push_member(&mut members, "model", JsonValue::text(ctx.model));
        push_member(&mut members, "messages", message_values(ctx.messages));
        push_member(&mut members, "stream", JsonValue::Bool(ctx.stream));
        match ctx.max_tokens {
            Some(n) => {
                push_member(&mut members, "max_tokens", JsonValue::unsigned(n as u64));
            },
            None => {},
        }
        assert(members_model(members@) =~= core_members(
            ctx.model@,
            ctx.messages@,
            ctx.stream,
            ctx.max_tokens,
        ));
        add_defaults(&mut members, ctx.extra_body);
        Ok(JsonValue::object(members))
    }

    /// Takes one chunk of the stream in and yields at most one event, as
    /// `step` says.
    pub fn parse_stream_event(&self, ctx: StreamParseContext, state: &mut StreamParseState) -> (r:
        Result<Option<StreamEvent>, ProviderError>)
        ensures
            final(state)@ == step(old(state)@, ctx.chunk@).0,
            result_is(r, step(old(state)@, ctx.chunk@).1),
    {
        parse_stream_event(ctx.chunk, state)
    }
}

} // verus!
