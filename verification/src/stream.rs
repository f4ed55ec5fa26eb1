//! The incremental decoder of a vendor's event stream.
//!
//! A stream is a run of bytes cut into lines by line feeds. A line that
//! begins with `data:` carries a payload: the end mark `[DONE]`, or a JSON
//! document. Every other line (a blank line, a comment, another field) is a
//! heartbeat and yields nothing. Bytes that do not yet end in a line feed
//! wait in the state until more arrive.

use vstd::prelude::*;
use vstd::slice::slice_subrange;
use crate::error::{opt_text, ErrorKind, ProviderError};
use crate::json::{
    decode_json, decoding_view, items_model, items_of, json_decoding, member_in, member_of,
    opt_model, text_in, text_of, unsigned_in, unsigned_of, Json, JsonValue,
};
use crate::text::{joined, owned};

verus! {

/// Token accounting as the vendor reports it.
#[derive(Clone, Copy, Debug, PartialEq, Eq, Structural)]
pub struct Usage {
    pub prompt_tokens: u64,
    pub completion_tokens: u64,
    pub total_tokens: u64,
}

/// The model of one piece of a tool call as a frame carries it.
pub struct Fragment {
    pub index: u64,
    pub id: Option<Seq<char>>,
    pub name: Option<Seq<char>>,
    pub arguments: Seq<char>,
}

/// The model of a tool call as assembled so far.
pub struct Call {
    pub index: u64,
    pub id: Seq<char>,
    pub name: Seq<char>,
    pub arguments: Seq<char>,
}

/// The model of a normalized event.
pub enum Event {
    Content(Seq<char>),
    ToolCalls(Seq<Fragment>),
    Done { stop_reason: Option<Seq<char>>, usage: Option<Usage> },
    Failure(Seq<char>),
}

/// The model of the state of one stream.
pub struct State {
    pub buffer: Seq<u8>,
    pub calls: Seq<Call>,
    pub stop_reason: Option<Seq<char>>,
    pub usage: Option<Usage>,
    pub terminal: bool,
}

/// What one parse call comes to: nothing, an event, or a payload that is no
/// JSON document, with the decoder's message.
pub enum Outcome {
    Nothing,
    Yield(Event),
    Malformed(Seq<char>),
}

/// One piece of a tool call: the vendor sends the identifier and the name
/// once and the arguments in pieces.
#[derive(Debug, PartialEq, Eq)]
pub struct ToolCallFragment {
    pub index: u64,
    pub id: Option<String>,
    pub name: Option<String>,
    pub arguments: String,
}

impl View for ToolCallFragment {
    type V = Fragment;

    open spec fn view(&self) -> Fragment {
        Fragment {
            index: self.index,
            id: opt_text(self.id),
            name: opt_text(self.name),
            arguments: self.arguments@,
        }
    }
}

/// A tool call as assembled from the pieces seen so far.
#[derive(Debug, PartialEq, Eq)]
pub struct ToolCall {
    pub index: u64,
    pub id: String,
    pub name: String,
    pub arguments: String,
}

impl View for ToolCall {
    type V = Call;

    open spec fn view(&self) -> Call {
        Call { index: self.index, id: self.id@, name: self.name@, arguments: self.arguments@ }
    }
}

/// The models of a sequence of fragments.
pub open spec fn fragments_model(s: Seq<ToolCallFragment>) -> Seq<Fragment> {
    Seq::new(s.len(), |i: int| s[i]@)
}

/// The models of a sequence of tool calls.
pub open spec fn calls_model(s: Seq<ToolCall>) -> Seq<Call> {
    Seq::new(s.len(), |i: int| s[i]@)
}

/// One normalized unit of streamed output.
#[derive(Debug, PartialEq, Eq)]
pub enum StreamEvent {
    /// A piece of text.
    ContentDelta { text: String },
    /// The pieces of tool calls that one frame carried.
    ToolCallDelta { calls: Vec<ToolCallFragment> },
    /// The end of the stream, with the stop reason and the usage seen.
    Done { stop_reason: Option<String>, usage: Option<Usage> },
    /// An error that the vendor reported inside the stream.
    Error { message: String },
}

impl View for StreamEvent {
    type V = Event;

    open spec fn view(&self) -> Event {
        match self {
            StreamEvent::ContentDelta { text } => Event::Content(text@),
            StreamEvent::ToolCallDelta { calls } => Event::ToolCalls(fragments_model(calls@)),
            StreamEvent::Done { stop_reason, usage } => Event::Done {
                stop_reason: opt_text(*stop_reason),
                usage: *usage,
            },
            StreamEvent::Error { message } => Event::Failure(message@),
        }
    }
}

impl StreamEvent {
    /// The error that an error event stands for, of kind
    /// `StreamProtocolError` and with the vendor's message; no other event
    /// stands for one.
    pub fn as_error(&self) -> (r: Option<ProviderError>)
        ensures
            match self@ {
                Event::Failure(m) => r matches Some(e) && e.is_plain(
                    ErrorKind::StreamProtocolError,
                    m,
                ),
                _ => r is None,
            },
    {
        match self {
            StreamEvent::Error { message } => Some(
                ProviderError::plain(ErrorKind::StreamProtocolError, message.clone()),
            ),
            _ => None,
        }
    }
}

/// The accumulator of one stream in flight: the bytes that do not yet make a
/// line, the tool calls assembled so far, the stop reason and the usage
/// seen, and whether the end mark has been met.
#[derive(Debug, PartialEq, Eq)]
pub struct StreamParseState {
    pub buffer: Vec<u8>,
    pub tool_calls: Vec<ToolCall>,
    pub stop_reason: Option<String>,
    pub usage: Option<Usage>,
    pub terminal: bool,
}

impl View for StreamParseState {
    type V = State;

    open spec fn view(&self) -> State {
        State {
            buffer: self.buffer@,
            calls: calls_model(self.tool_calls@),
            stop_reason: opt_text(self.stop_reason),
            usage: self.usage,
            terminal: self.terminal,
        }
    }
}

/// The state of a stream of which nothing has been seen.
pub open spec fn initial_state() -> State {
    State {
        buffer: Seq::empty(),
        calls: Seq::empty(),
        stop_reason: None,
        usage: None,
        terminal: false,
    }
}

impl StreamParseState {
    /// The state at the start of a stream.
    pub fn new() -> (s: StreamParseState)
        ensures
            s@ == initial_state(),
    {
        let s = StreamParseState {
            buffer: Vec::new(),
            tool_calls: Vec::new(),
            stop_reason: None,
            usage: None,
            terminal: false,
        };
        assert(s@.calls =~= Seq::empty());
        s
    }

    /// Whether the end mark has been met.
    pub fn is_terminal(&self) -> (t: bool)
        ensures
            t == self@.terminal,
    {
        self.terminal
    }

    /// The number of bytes that wait for the rest of their line.
    pub fn buffered(&self) -> (n: usize)
        ensures
            n == self@.buffer.len(),
    {
        self.buffer.len()
    }
}

// ---------------------------------------------------------------------
// Lines

/// The place of the first line feed in `buf`, or its length where it has
/// none.
pub open spec fn first_newline(buf: Seq<u8>) -> int
    decreases buf.len(),
{
    if buf.len() == 0 {
        0
    } else if buf[0] == 10 {
        0
    } else {
        1 + first_newline(buf.drop_first())
    }
}

/// `first_newline` is within the bytes, no line feed comes before it, and
/// one stands at it where it is not the length.
pub proof fn lemma_first_newline(buf: Seq<u8>)
    ensures
        0 <= first_newline(buf) <= buf.len(),
        forall|k: int| 0 <= k < first_newline(buf) ==> buf[k] != 10,
        first_newline(buf) < buf.len() ==> buf[first_newline(buf)] == 10,
    decreases buf.len(),
{
    if buf.len() > 0 && buf[0] != 10 {
        let tail = buf.drop_first();
        lemma_first_newline(tail);
        assert forall|k: int| 0 <= k < first_newline(buf) implies buf[k] != 10 by {
            if k > 0 {
                assert(tail[k - 1] == buf[k]);
            }
        }
    }
}

/// A place with no line feed before it, and one at it unless it is the
/// length, is `first_newline`.
pub proof fn lemma_first_newline_is(buf: Seq<u8>, n: int)
    requires
        0 <= n <= buf.len(),
        forall|k: int| 0 <= k < n ==> buf[k] != 10,
        n < buf.len() ==> buf[n] == 10,
    ensures
        first_newline(buf) == n,
    decreases buf.len(),
{
    if buf.len() > 0 && n > 0 {
        let tail = buf.drop_first();
        assert(buf[0] != 10);
        assert forall|k: int| 0 <= k < n - 1 implies tail[k] != 10 by {
            assert(tail[k] == buf[k + 1]);
        }
        lemma_first_newline_is(tail, n - 1);
    }
}

/// What a line is.
pub enum Frame {
    /// A heartbeat: nothing to decode.
    Skip,
    /// The end mark.
    Sentinel,
    /// A payload to decode.
    Data(Seq<u8>),
}

/// A line without the carriage return it may end in.
pub open spec fn without_cr(line: Seq<u8>) -> Seq<u8> {
    if line.len() > 0 && line.last() == 13 {
        line.drop_last()
    } else {
        line
    }
}

/// Whether the bytes begin with `data:`.
pub open spec fn has_data_prefix(l: Seq<u8>) -> bool {
    l.len() >= 5 && l[0] == 100 && l[1] == 97 && l[2] == 116 && l[3] == 97 && l[4] == 58
}

/// Whether the bytes are `[DONE]`.
pub open spec fn is_end_mark(p: Seq<u8>) -> bool {
    p.len() == 6 && p[0] == 91 && p[1] == 68 && p[2] == 79 && p[3] == 78 && p[4] == 69 && p[5]
        == 93
}

/// What follows `data:`, without the one space that may come first.
pub open spec fn payload_of(l: Seq<u8>) -> Seq<u8> {
    if l.len() > 5 && l[5] == 32 {
        l.subrange(6, l.len() as int)
    } else {
        l.subrange(5, l.len() as int)
    }
}

/// The frame that a line (without its line feed) stands for.
pub open spec fn frame_of(line: Seq<u8>) -> Frame {
    let l = without_cr(line);
    if has_data_prefix(l) {
        let p = payload_of(l);
        if is_end_mark(p) {
            Frame::Sentinel
        } else if p.len() == 0 {
            Frame::Skip
        } else {
            Frame::Data(p)
        }
    } else {
        Frame::Skip
    }
}

/// The place of the first line feed at or after `from`.
fn find_newline(buf: &Vec<u8>, from: usize) -> (at: usize)
    requires
        from <= buf@.len(),
    ensures
        from <= at <= buf@.len(),
        at - from == first_newline(buf@.subrange(from as int, buf@.len() as int)),
{
    let mut i: usize = from;
    while i < buf.len() && buf[i] != 10
        invariant
            from <= i <= buf@.len(),
            forall|k: int| from <= k < i ==> buf@[k] != 10,
        decreases buf@.len() - i,
    {
        i += 1;
    }
    proof {
        lemma_first_newline_is(buf@.subrange(from as int, buf@.len() as int), i - from);
    }
    i
}

/// A line as the decoder sees it: where its payload lies in the buffer.
enum LineKind {
    Skip,
    Sentinel,
    Data { from: usize, to: usize },
}

/// Tells what the line `buf[from..to]` is.
fn classify(buf: &Vec<u8>, from: usize, to: usize) -> (kind: LineKind)
    requires
        from <= to <= buf@.len(),
    ensures
        match kind {
            LineKind::Skip => frame_of(buf@.subrange(from as int, to as int)) == Frame::Skip,
            LineKind::Sentinel => frame_of(buf@.subrange(from as int, to as int))
                == Frame::Sentinel,
            LineKind::Data { from: a, to: b } => from <= a <= b <= to && frame_of(
                buf@.subrange(from as int, to as int),
            ) == Frame::Data(buf@.subrange(a as int, b as int)),
        },
{
    let ghost line = buf@.subrange(from as int, to as int);
    let mut end: usize = to;
    if end > from && buf[end - 1] == 13 {
        end -= 1;
    }
    let ghost l = without_cr(line);
    assert(l =~= buf@.subrange(from as int, end as int));
    if end - from >= 5 && buf[from] == 100 && buf[from + 1] == 97 && buf[from + 2] == 116
        && buf[from + 3] == 97 && buf[from + 4] == 58 {
        let mut a: usize = from + 5;
        if a < end && buf[a] == 32 {
            a += 1;
        }
        let ghost p = payload_of(l);
        assert(p =~= buf@.subrange(a as int, end as int));
        if end - a == 6 && buf[a] == 91 && buf[a + 1] == 68 && buf[a + 2] == 79 && buf[a + 3]
            == 78 && buf[a + 4] == 69 && buf[a + 5] == 93 {
            LineKind::Sentinel
        } else if a == end {
            LineKind::Skip
        } else {
            LineKind::Data { from: a, to: end }
        }
    } else {
        LineKind::Skip
    }
}

// ---------------------------------------------------------------------
// Payloads

/// The number under `name`, or zero.
pub open spec fn count_of(j: Json, name: Seq<char>) -> u64 {
    match unsigned_of(j.member(name)) {
        Some(n) => n,
        None => 0,
    }
}

/// The text of a document that may be missing, or the empty text.
pub open spec fn text_or_empty(j: Option<Json>) -> Seq<char> {
    match text_of(j) {
        Some(t) => t,
        None => Seq::empty(),
    }
}

/// The piece of a tool call that one item of `tool_calls` carries.
pub open spec fn fragment_of(j: Json) -> Fragment {
    Fragment {
        index: count_of(j, "index"@),
        id: text_of(j.member("id"@)),
        name: text_of(member_in(j.member("function"@), "name"@)),
        arguments: text_or_empty(member_in(j.member("function"@), "arguments"@)),
    }
}

/// The pieces that the items carry, in order.
pub open spec fn fragments_of(items: Seq<Json>) -> Seq<Fragment> {
    Seq::new(items.len(), |i: int| fragment_of(items[i]))
}

/// The first item of `choices`.
pub open spec fn first_choice(j: Json) -> Option<Json> {
    match items_of(j.member("choices"@)) {
        Some(items) => if items.len() > 0 {
            Some(items[0])
        } else {
            None
        },
        None => None,
    }
}

/// The `delta` of the first choice.
pub open spec fn delta_of(j: Json) -> Option<Json> {
    member_in(first_choice(j), "delta"@)
}

/// The text that a payload adds.
pub open spec fn content_of(j: Json) -> Option<Seq<char>> {
    text_of(member_in(delta_of(j), "content"@))
}

/// The pieces of tool calls that a payload adds.
pub open spec fn tool_fragments(j: Json) -> Seq<Fragment> {
    match items_of(member_in(delta_of(j), "tool_calls"@)) {
        Some(items) => fragments_of(items),
        None => Seq::empty(),
    }
}

/// The stop reason that a payload reports.
pub open spec fn finish_reason(j: Json) -> Option<Seq<char>> {
    text_of(member_in(first_choice(j), "finish_reason"@))
}

/// The usage that a payload reports: the object under `usage`, a count that
/// is missing taken as zero.
pub open spec fn usage_of(j: Json) -> Option<Usage> {
    match j.member("usage"@) {
        Some(u) => if u is Object {
            Some(
                Usage {
                    prompt_tokens: count_of(u, "prompt_tokens"@),
                    completion_tokens: count_of(u, "completion_tokens"@),
                    total_tokens: count_of(u, "total_tokens"@),
                },
            )
        } else {
            None
        },
        None => None,
    }
}

/// The error that a payload reports: what stands under `error`, unless that
/// is null.
pub open spec fn error_in(j: Json) -> Option<Json> {
    match j.member("error"@) {
        Some(e) => if e is Null {
            None
        } else {
            Some(e)
        },
        None => None,
    }
}

/// The message of a reported error: its `message`, or the error itself
/// where it is a text, or nothing.
pub open spec fn error_message(e: Json) -> Seq<char> {
    match text_of(e.member("message"@)) {
        Some(m) => m,
        None => match e.text() {
            Some(m) => m,
            None => Seq::empty(),
        },
    }
}

/// The place of the first call with the given index, or the length.
pub open spec fn call_place(calls: Seq<Call>, index: u64) -> int
    decreases calls.len(),
{
    if calls.len() == 0 {
        0
    } else if calls[0].index == index {
        0
    } else {
        1 + call_place(calls.drop_first(), index)
    }
}

/// `a`, or `b` where `a` is missing.
pub open spec fn or_else(a: Option<Seq<char>>, b: Seq<char>) -> Seq<char> {
    match a {
        Some(x) => x,
        None => b,
    }
}

/// Adds one piece to the calls assembled so far: the call with the piece's
/// index takes the identifier and name that the piece brings and has the
/// piece's arguments appended; a piece with a new index starts a call.
pub open spec fn assemble(calls: Seq<Call>, f: Fragment) -> Seq<Call> {
    let p = call_place(calls, f.index);
    if 0 <= p < calls.len() {
        calls.update(
            p,
            Call {
                index: f.index,
                id: or_else(f.id, calls[p].id),
                name: or_else(f.name, calls[p].name),
                arguments: calls[p].arguments + f.arguments,
            },
        )
    } else {
        calls.push(
            Call {
                index: f.index,
                id: or_else(f.id, Seq::empty()),
                name: or_else(f.name, Seq::empty()),
                arguments: f.arguments,
            },
        )
    }
}

/// Adds the pieces one after the other.
pub open spec fn assemble_all(calls: Seq<Call>, fragments: Seq<Fragment>) -> Seq<Call>
    decreases fragments.len(),
{
    if fragments.len() == 0 {
        calls
    } else {
        assemble(assemble_all(calls, fragments.drop_last()), fragments.last())
    }
}

/// `a`, or `b` where `a` is missing.
pub open spec fn newer<T>(a: Option<T>, b: Option<T>) -> Option<T> {
    match a {
        Some(x) => Some(x),
        None => b,
    }
}

/// What a decoded payload does to the state, and the event it yields.
///
/// A reported error yields an error event and changes nothing. Otherwise
/// the tool-call pieces are assembled into the state, and a stop reason and
/// a usage that the payload reports are kept for the final event. Text that
/// is not empty yields a content event; else the pieces, if there are any,
/// yield a tool-call event; else nothing is yielded.
pub open spec fn payload_effect(j: Json, s: State) -> (State, Option<Event>) {
    match error_in(j) {
        Some(e) => (s, Some(Event::Failure(error_message(e)))),
        None => (
            State {
                calls: assemble_all(s.calls, tool_fragments(j)),
                stop_reason: newer(finish_reason(j), s.stop_reason),
                usage: newer(usage_of(j), s.usage),
                ..s
            },
            match content_of(j) {
                Some(t) => if t.len() > 0 {
                    Some(Event::Content(t))
                } else if tool_fragments(j).len() > 0 {
                    Some(Event::ToolCalls(tool_fragments(j)))
                } else {
                    None
                },
                None => if tool_fragments(j).len() > 0 {
                    Some(Event::ToolCalls(tool_fragments(j)))
                } else {
                    None
                },
            },
        ),
    }
}

/// The model of an event that may be missing.
pub open spec fn event_model(e: Option<StreamEvent>) -> Option<Event> {
    match e {
        Some(x) => Some(x@),
        None => None,
    }
}

fn count_in(v: &JsonValue, name: &str) -> (n: u64)
    ensures
        n == count_of(v@, name@),
{
    match unsigned_in(v.get(name)) {
        Some(n) => n,
        None => 0,
    }
}

fn text_or_empty_in(v: Option<&JsonValue>) -> (t: String)
    ensures
        t@ == text_or_empty(opt_model(v)),
{
    match text_in(v) {
        Some(t) => t,
        None => String::new(),
    }
}

fn read_fragment(v: &JsonValue) -> (f: ToolCallFragment)
    ensures
        f@ == fragment_of(v@),
{
    let function = v.get("function");
    ToolCallFragment {
        index: count_in(v, "index"),
        id: text_in(v.get("id")),
        name: text_in(member_of(function, "name")),
        arguments: text_or_empty_in(member_of(function, "arguments")),
    }
}

fn read_fragments(v: Option<&JsonValue>) -> (r: Vec<ToolCallFragment>)
    ensures
        fragments_model(r@) == match items_of(opt_model(v)) {
            Some(items) => fragments_of(items),
            None => Seq::empty(),
        },
{
    let mut out: Vec<ToolCallFragment> = Vec::new();
    match v {
        Some(x) => match x.as_items() {
            Some(items) => {
                let mut i: usize = 0;
                while i < items.len()
                    invariant
                        i <= items@.len(),
                        out@.len() == i,
                        forall|k: int| 0 <= k < i ==> out@[k]@ == fragment_of(items@[k]@),
                    decreases items@.len() - i,
                {
                    out.push(read_fragment(&items[i]));
                    i += 1;
                }
                assert(fragments_model(out@) =~= fragments_of(items_model(items@)));
            },
            None => {
                assert(fragments_model(out@) =~= Seq::empty());
            },
        },
        None => {
            assert(fragments_model(out@) =~= Seq::empty());
        },
    }
    out
}

fn read_first_choice(payload: &JsonValue) -> (r: Option<&JsonValue>)
    ensures
        opt_model(r) == first_choice(payload@),
{
    match payload.get("choices") {
        Some(c) => match c.as_items() {
            Some(items) => if items.len() > 0 {
                Some(&items[0])
            } else {
                None
            },
            None => None,
        },
        None => None,
    }
}

fn read_usage(payload: &JsonValue) -> (r: Option<Usage>)
    ensures
        r == usage_of(payload@),
{
    match payload.get("usage") {
        Some(u) => if u.is_object() {
            Some(
                Usage {
                    prompt_tokens: count_in(u, "prompt_tokens"),
                    completion_tokens: count_in(u, "completion_tokens"),
                    total_tokens: count_in(u, "total_tokens"),
                },
            )
        } else {
            None
        },
        None => None,
    }
}

fn read_error_message(e: &JsonValue) -> (m: String)
    ensures
        m@ == error_message(e@),
{
    match text_in(e.get("message")) {
        Some(m) => m,
        None => match e.as_text() {
            Some(m) => m.clone(),
            None => String::new(),
        },
    }
}

fn copy_or(a: &Option<String>, b: &str) -> (r: String)
    ensures
        r@ == or_else(opt_text(*a), b@),
{
    match a {
        Some(x) => x.clone(),
        None => owned(b),
    }
}

/// Adds one piece to the assembled calls.
fn assemble_one(calls: &mut Vec<ToolCall>, f: &ToolCallFragment)
    ensures
        calls_model(final(calls)@) == assemble(calls_model(old(calls)@), f@),
{
    let ghost before = calls_model(calls@);
    let mut i: usize = 0;
    assert(before.skip(0) =~= before);
    while i < calls.len() && calls[i].index != f.index
        invariant
            i <= calls@.len(),
            before == calls_model(calls@),
            call_place(before, f.index) == i + call_place(before.skip(i as int), f.index),
        decreases calls@.len() - i,
    {
        assert(before.skip(i as int).drop_first() =~= before.skip(i + 1));
        i += 1;
    }
    if i < calls.len() {
        let id = copy_or(&f.id, calls[i].id.as_str());
        let name = copy_or(&f.name, calls[i].name.as_str());
        let arguments = joined(calls[i].arguments.as_str(), f.arguments.as_str());
        let call = ToolCall { index: f.index, id, name, arguments };
        calls.set(i, call);
        assert(calls_model(calls@) =~= assemble(before, f@));
    } else {
        let id = copy_or(&f.id, "");
        let name = copy_or(&f.name, "");
        let call = ToolCall { index: f.index, id, name, arguments: f.arguments.clone() };
        calls.push(call);
        proof {
            reveal_strlit("");
            assert(""@ =~= Seq::<char>::empty());
        }
        assert(calls_model(calls@) =~= assemble(before, f@));
    }
}

/// Adds the pieces to the assembled calls, one after the other.
fn assemble_into(calls: &mut Vec<ToolCall>, fragments: &Vec<ToolCallFragment>)
    ensures
        calls_model(final(calls)@) == assemble_all(
            calls_model(old(calls)@),
            fragments_model(fragments@),
        ),
{
    let ghost before = calls_model(calls@);
    let ghost all = fragments_model(fragments@);
    let mut i: usize = 0;
    while i < fragments.len()
        invariant
            i <= fragments@.len(),
            all == fragments_model(fragments@),
            calls_model(calls@) == assemble_all(before, all.take(i as int)),
        decreases fragments@.len() - i,
    {
        assert(all.take(i + 1).drop_last() =~= all.take(i as int));
        assert(all.take(i + 1).last() == fragments@[i as int]@);
        assemble_one(calls, &fragments[i]);
        i += 1;
    }
    assert(all.take(i as int) =~= all);
}

/// Applies a decoded payload: brings the state up to date and returns the
/// event that the payload yields, if any.
pub fn apply_payload(payload: &JsonValue, state: &mut StreamParseState) -> (event: Option<
    StreamEvent,
>)
    ensures
        final(state)@ == payload_effect(payload@, old(state)@).0,
        event_model(event) == payload_effect(payload@, old(state)@).1,
{
    match payload.get("error") {
        Some(e) => {
            if !e.is_null() {
                return Some(StreamEvent::Error { message: read_error_message(e) });
            }
        },
        None => {},
    }
    let choice = read_first_choice(payload);
    let delta = member_of(choice, "delta");
    let fragments = read_fragments(member_of(delta, "tool_calls"));
    assemble_into(&mut state.tool_calls, &fragments);
    match text_in(member_of(choice, "finish_reason")) {
        Some(reason) => {
            state.stop_reason = Some(reason);
        },
        None => {},
    }
    match read_usage(payload) {
        Some(u) => {
            state.usage = Some(u);
        },
        None => {},
    }
    match text_in(member_of(delta, "content")) {
        Some(text) => {
            if !text.as_str().is_empty() {
                return Some(StreamEvent::ContentDelta { text });
            }
        },
        None => {},
    }
    if fragments.len() > 0 {
        Some(StreamEvent::ToolCallDelta { calls: fragments })
    } else {
        None
    }
}

// ---------------------------------------------------------------------
// Steps

/// The state with other bytes waiting.
pub open spec fn with_buffer(s: State, buffer: Seq<u8>) -> State {
    State { buffer, ..s }
}

/// What a line does to the state (in which the bytes after the line already
/// wait), and what it comes to.
///
/// A heartbeat changes nothing. The end mark makes the state terminal, drops
/// the bytes that wait, and yields the final event with the stop reason and
/// the usage seen. A payload is decoded: one that is no JSON document comes
/// to `Malformed` and changes nothing; a document acts as `payload_effect`
/// says.
pub open spec fn line_effect(s: State, line: Seq<u8>) -> (State, Outcome) {
    match frame_of(line) {
        Frame::Skip => (s, Outcome::Nothing),
        Frame::Sentinel => (
            State { terminal: true, buffer: Seq::empty(), ..s },
            Outcome::Yield(Event::Done { stop_reason: s.stop_reason, usage: s.usage }),
        ),
        Frame::Data(p) => match json_decoding(p) {
            Err(m) => (s, Outcome::Malformed(m)),
            Ok(j) => (
                payload_effect(j, s).0,
                match payload_effect(j, s).1 {
                    Some(e) => Outcome::Yield(e),
                    None => Outcome::Nothing,
                },
            ),
        },
    }
}

/// Works through the lines that wait in a state that is not terminal, up to
/// the first that comes to something; without a whole line, nothing happens.
pub open spec fn pump(s: State) -> (State, Outcome)
    decreases s.buffer.len(),
{
    let n = first_newline(s.buffer);
    if 0 <= n < s.buffer.len() {
        let line = s.buffer.subrange(0, n);
        let rest = s.buffer.subrange(n + 1, s.buffer.len() as int);
        let (s1, o) = line_effect(with_buffer(s, rest), line);
        if o is Nothing {
            pump(s1)
        } else {
            (s1, o)
        }
    } else {
        (s, Outcome::Nothing)
    }
}

/// One parse call: a terminal state takes nothing in and yields nothing;
/// otherwise the chunk joins the bytes that wait and the lines are worked
/// through up to the first that comes to something.
pub open spec fn step(s: State, chunk: Seq<u8>) -> (State, Outcome) {
    if s.terminal {
        (s, Outcome::Nothing)
    } else {
        pump(with_buffer(s, s.buffer + chunk))
    }
}

/// The message of the error for a payload that is no JSON document.
pub open spec fn malformed_message(m: Seq<char>) -> Seq<char> {
    "Failed to parse stream payload: "@ + m
}

/// Whether the result of a parse call is what the outcome says.
pub open spec fn result_is(r: Result<Option<StreamEvent>, ProviderError>, o: Outcome) -> bool {
    match o {
        Outcome::Nothing => r matches Ok(None),
        Outcome::Yield(e) => r matches Ok(Some(x)) && x@ == e,
        Outcome::Malformed(m) => r matches Err(e) && e.is_plain(
            ErrorKind::ResponseParseFailed,
            malformed_message(m),
        ),
    }
}

/// A line that yields nothing leaves the waiting bytes as they are, and a
/// payload acts alike whatever bytes wait.
pub proof fn lemma_line_effect_buffer(s: State, line: Seq<u8>, buffer: Seq<u8>)
    ensures
        line_effect(s, line).1 is Nothing ==> line_effect(s, line).0.buffer == s.buffer,
        !(frame_of(line) is Sentinel) ==> line_effect(with_buffer(s, buffer), line) == (
            with_buffer(line_effect(s, line).0, buffer),
            line_effect(s, line).1,
        ),
        frame_of(line) is Sentinel ==> line_effect(with_buffer(s, buffer), line) == line_effect(
            s,
            line,
        ),
        line_effect(s, line).0.terminal == (s.terminal || frame_of(line) is Sentinel),
{
}

fn copy_opt(a: &Option<String>) -> (r: Option<String>)
    ensures
        opt_text(r) == opt_text(*a),
{
    match a {
        Some(x) => Some(x.clone()),
        None => None,
    }
}

/// Drops the first `n` bytes that wait.
fn consume(state: &mut StreamParseState, n: usize)
    requires
        n <= old(state)@.buffer.len(),
    ensures
        final(state)@ == with_buffer(
            old(state)@,
            old(state)@.buffer.subrange(n as int, old(state)@.buffer.len() as int),
        ),
{
    let rest = state.buffer.split_off(n);
    state.buffer = rest;
}

/// Takes one chunk of the stream in and yields at most one event.
///
/// The chunk joins the bytes that wait. The lines that are whole are worked
/// through in order, up to the first that yields an event or is malformed;
/// that line and those before it are used up, and what follows waits for the
/// next call. A call with an empty chunk therefore yields the next event of
/// what is already there. Once the end mark has been met the state is
/// terminal: every further call yields nothing and changes nothing.
pub fn parse_stream_event(chunk: &[u8], state: &mut StreamParseState) -> (r: Result<
    Option<StreamEvent>,
    ProviderError,
>)
    ensures
        final(state)@ == step(old(state)@, chunk@).0,
        result_is(r, step(old(state)@, chunk@).1),
{
    if state.terminal {
        return Ok(None);
    }
    state.buffer.extend_from_slice(chunk);
    let ghost start = with_buffer(old(state)@, old(state)@.buffer + chunk@);
    assert(state@.buffer =~= old(state)@.buffer + chunk@);
    assert(state@ == start);
    let mut pos: usize = 0;
    let ghost all = state@.buffer;
    assert(all.subrange(0, all.len() as int) =~= all);
    loop
        invariant
            pos <= all.len(),
            state@.buffer == all,
            !state@.terminal,
            pump(with_buffer(state@, all.subrange(pos as int, all.len() as int))) == pump(start),
            step(old(state)@, chunk@) == pump(start),
        decreases all.len() - pos,
    {
        let ghost cur = with_buffer(state@, all.subrange(pos as int, all.len() as int));
        let at = find_newline(&state.buffer, pos);
        if at >= state.buffer.len() {
            consume(state, pos);
            return Ok(None);
        }
        let ghost line = cur.buffer.subrange(0, at - pos);
        let ghost rest = cur.buffer.subrange(at - pos + 1, cur.buffer.len() as int);
        assert(line =~= all.subrange(pos as int, at as int));
        assert(rest =~= all.subrange(at + 1, all.len() as int));
        proof {
            lemma_line_effect_buffer(state@, line, rest);
        }
        let kind = classify(&state.buffer, pos, at);
        match kind {
            LineKind::Skip => {
                pos = at + 1;
            },
            LineKind::Sentinel => {
                let stop_reason = copy_opt(&state.stop_reason);
                let usage = state.usage;
                state.terminal = true;
                state.buffer = Vec::new();
                assert(state@.buffer =~= Seq::<u8>::empty());
                return Ok(Some(StreamEvent::Done { stop_reason, usage }));
            },
            LineKind::Data { from, to } => {
                let decoded = decode_json(slice_subrange(state.buffer.as_slice(), from, to));
                match decoded {
                    Err(m) => {
                        consume(state, at + 1);
                        let message = joined("Failed to parse stream payload: ", m.as_str());
                        return Err(
                            ProviderError::plain(ErrorKind::ResponseParseFailed, message),
                        );
                    },
                    Ok(json) => {
                        let event = apply_payload(&json, state);
                        match event {
                            Some(e) => {
                                consume(state, at + 1);
                                return Ok(Some(e));
                            },
                            None => {
                                pos = at + 1;
                            },
                        }
                    },
                }
            },
        }
    }
}

// ---------------------------------------------------------------------
// Laws

/// A first line feed stays the first when bytes are added behind.
pub proof fn lemma_first_newline_append(x: Seq<u8>, b: Seq<u8>)
    ensures
        first_newline(x) < x.len() ==> first_newline(x + b) == first_newline(x),
        first_newline(x) >= x.len() ==> first_newline(x + b) == x.len() + first_newline(b),
{
    lemma_first_newline(x);
    lemma_first_newline(b);
    let n = first_newline(x);
    if n < x.len() {
        assert forall|k: int| 0 <= k < n implies (x + b)[k] != 10 by {
            assert((x + b)[k] == x[k]);
        }
        assert((x + b)[n] == x[n]);
        lemma_first_newline_is(x + b, n);
    } else {
        let m = x.len() + first_newline(b);
        assert forall|k: int| 0 <= k < m implies (x + b)[k] != 10 by {
            if k < x.len() {
                assert((x + b)[k] == x[k]);
            } else {
                assert((x + b)[k] == b[k - x.len()]);
            }
        }
        if m < (x + b).len() {
            assert((x + b)[m] == b[first_newline(b)]);
        }
        lemma_first_newline_is(x + b, m);
    }
}

/// Working through lines never adds to the bytes that wait, and uses some
/// up whenever it comes to something; where it comes to nothing, the state
/// stays open and holds no whole line.
pub proof fn lemma_pump_shrinks(s: State)
    requires
        !s.terminal,
    ensures
        pump(s).0.buffer.len() <= s.buffer.len(),
        !(pump(s).1 is Nothing) ==> pump(s).0.buffer.len() < s.buffer.len(),
        pump(s).1 is Nothing ==> !pump(s).0.terminal && first_newline(pump(s).0.buffer)
            >= pump(s).0.buffer.len(),
    decreases s.buffer.len(),
{
    lemma_first_newline(s.buffer);
    let n = first_newline(s.buffer);
    if 0 <= n < s.buffer.len() {
        let line = s.buffer.subrange(0, n);
        let rest = s.buffer.subrange(n + 1, s.buffer.len() as int);
        let (s1, o) = line_effect(with_buffer(s, rest), line);
        lemma_line_effect_buffer(with_buffer(s, rest), line, rest);
        if o is Nothing {
            lemma_pump_shrinks(s1);
        }
    }
}

/// Bytes added behind those that wait do not change what the lines before
/// them come to: they wait in turn.
pub proof fn lemma_pump_append(s: State, b: Seq<u8>)
    requires
        !s.terminal,
    ensures
        pump(s).1 is Nothing ==> pump(with_buffer(s, s.buffer + b)) == pump(
            with_buffer(pump(s).0, pump(s).0.buffer + b),
        ),
        !(pump(s).1 is Nothing) ==> pump(with_buffer(s, s.buffer + b)) == (
            if pump(s).0.terminal {
                pump(s).0
            } else {
                with_buffer(pump(s).0, pump(s).0.buffer + b)
            },
            pump(s).1,
        ),
    decreases s.buffer.len(),
{
    let x = s.buffer;
    lemma_first_newline(x);
    lemma_first_newline_append(x, b);
    let n = first_newline(x);
    if 0 <= n < x.len() {
        let line = x.subrange(0, n);
        let rest = x.subrange(n + 1, x.len() as int);
        let grown = with_buffer(s, x + b);
        assert(grown.buffer.subrange(0, n) =~= line);
        assert(grown.buffer.subrange(n + 1, grown.buffer.len() as int) =~= rest + b);
        assert(with_buffer(grown, rest + b) == with_buffer(s, rest + b));
        lemma_line_effect_buffer(s, line, rest);
        lemma_line_effect_buffer(s, line, rest + b);
        let (s1, o) = line_effect(with_buffer(s, rest), line);
        if o is Nothing {
            lemma_pump_append(s1, b);
            assert(with_buffer(s1, s1.buffer + b) == line_effect(
                with_buffer(s, rest + b),
                line,
            ).0);
        }
    } else {
        assert(with_buffer(s, s.buffer) == s);
    }
}

/// A poll that yields something uses up some of the bytes that wait.
pub proof fn lemma_poll_shrinks(s: State)
    ensures
        !(step(s, Seq::empty()).1 is Nothing) ==> step(s, Seq::empty()).0.buffer.len()
            < s.buffer.len(),
{
    if !s.terminal {
        assert(s.buffer + Seq::<u8>::empty() =~= s.buffer);
        assert(with_buffer(s, s.buffer + Seq::<u8>::empty()) == s);
        lemma_pump_shrinks(s);
    }
}

/// Polling: parse calls with an empty chunk, one after the other, until one
/// yields nothing. The result is the state then reached and what the calls
/// before came to, in order.
pub open spec fn drain(s: State) -> (State, Seq<Outcome>)
    decreases s.buffer.len(),
{
    let (s1, o) = step(s, Seq::empty());
    if o is Nothing {
        (s1, Seq::empty())
    } else {
        proof {
            lemma_poll_shrinks(s);
        }
        let (s2, rest) = drain(s1);
        (s2, seq![o] + rest)
    }
}

/// Feeding a chunk: one parse call with the chunk and, where it yields
/// something, polling until nothing is left to yield.
pub open spec fn run(s: State, chunk: Seq<u8>) -> (State, Seq<Outcome>) {
    let (s1, o) = step(s, chunk);
    if o is Nothing {
        (s1, Seq::empty())
    } else {
        (drain(s1).0, seq![o] + drain(s1).1)
    }
}

/// The state with more bytes behind those that wait, unless it is terminal.
pub open spec fn fed(s: State, b: Seq<u8>) -> State {
    if s.terminal {
        s
    } else {
        with_buffer(s, s.buffer + b)
    }
}

/// Polling a state that has been given more bytes comes to what polling it
/// first and feeding the bytes afterwards comes to.
pub proof fn lemma_drain_append(t: State, b: Seq<u8>)
    ensures
        drain(fed(t, b)).0 == run(drain(t).0, b).0,
        drain(fed(t, b)).1 == drain(t).1 + run(drain(t).0, b).1,
    decreases t.buffer.len(),
{
    let none = Seq::<u8>::empty();
    if t.terminal {
        assert(drain(t).1 + run(drain(t).0, b).1 =~= Seq::<Outcome>::empty());
    } else {
        assert(t.buffer + none =~= t.buffer);
        assert(with_buffer(t, t.buffer + none) == t);
        let grown = with_buffer(t, t.buffer + b);
        assert(grown.buffer + none =~= grown.buffer);
        assert(with_buffer(grown, grown.buffer + none) == grown);
        lemma_pump_append(t, b);
        lemma_pump_shrinks(t);
        let (t1, o) = pump(t);
        if o is Nothing {
            assert(step(t1, b) == pump(grown));
            assert(drain(t).1 + run(t1, b).1 =~= run(t1, b).1);
        } else {
            lemma_drain_append(t1, b);
            assert(pump(grown) == (fed(t1, b), o));
            assert(seq![o] + (drain(t1).1 + run(drain(t1).0, b).1) =~= (seq![o] + drain(t1).1)
                + run(drain(t1).0, b).1);
        }
    }
}

/// Chunk-boundary invariance. However a run of bytes is cut in two, feeding
/// the two chunks one after the other yields the same events, and leaves the
/// same state, as feeding the bytes as one chunk.
pub proof fn law_chunk_boundary(s: State, a: Seq<u8>, b: Seq<u8>)
    ensures
        run(s, a + b).0 == run(run(s, a).0, b).0,
        run(s, a + b).1 == run(s, a).1 + run(run(s, a).0, b).1,
{
    if s.terminal {
        assert(run(s, a).1 + run(run(s, a).0, b).1 =~= Seq::<Outcome>::empty());
    } else {
        let first = with_buffer(s, s.buffer + a);
        assert(s.buffer + (a + b) =~= first.buffer + b);
        assert(with_buffer(s, s.buffer + (a + b)) == with_buffer(first, first.buffer + b));
        lemma_pump_append(first, b);
        lemma_pump_shrinks(first);
        let (s1, o) = pump(first);
        if o is Nothing {
            assert(step(s1, b) == step(s, a + b));
            assert(run(s, a).1 + run(s1, b).1 =~= run(s1, b).1);
        } else {
            lemma_drain_append(s1, b);
            assert(step(s, a + b) == (fed(s1, b), o));
            assert(seq![o] + (drain(s1).1 + run(drain(s1).0, b).1) =~= (seq![o] + drain(s1).1)
                + run(drain(s1).0, b).1);
        }
    }
}

/// A chunk that ends inside a line is kept: the call yields nothing, and the
/// next call does what one call with both chunks would have done.
pub proof fn law_partial_frame_waits(s: State, a: Seq<u8>, b: Seq<u8>)
    requires
        !s.terminal,
        first_newline(s.buffer + a) >= (s.buffer + a).len(),
    ensures
        step(s, a) == (with_buffer(s, s.buffer + a), Outcome::Nothing),
        step(step(s, a).0, b) == step(s, a + b),
{
    let first = with_buffer(s, s.buffer + a);
    assert(s.buffer + (a + b) =~= first.buffer + b);
    assert(with_buffer(s, s.buffer + (a + b)) == with_buffer(first, first.buffer + b));
}

/// One whole line fed to an open state in which nothing waits does what
/// `line_effect` says of the line.
pub proof fn law_whole_frame(s: State, line: Seq<u8>)
    requires
        !s.terminal,
        s.buffer.len() == 0,
        first_newline(line) >= line.len(),
    ensures
        step(s, line.push(10)) == line_effect(s, line),
{
    let chunk = line.push(10);
    let grown = with_buffer(s, s.buffer + chunk);
    assert(grown.buffer =~= line + seq![10u8]);
    lemma_first_newline(line);
    lemma_first_newline_append(line, seq![10u8]);
    assert(first_newline(seq![10u8]) == 0);
    let n = line.len() as int;
    assert(first_newline(grown.buffer) == n);
    assert(grown.buffer.subrange(0, n) =~= line);
    assert(grown.buffer.subrange(n + 1, grown.buffer.len() as int) =~= Seq::<u8>::empty());
    assert(s.buffer =~= Seq::<u8>::empty());
    assert(with_buffer(grown, Seq::<u8>::empty()) == s);
    lemma_line_effect_buffer(s, line, Seq::empty());
    let (s1, o) = line_effect(s, line);
    if o is Nothing {
        assert(s1.buffer =~= Seq::<u8>::empty());
        assert(pump(s1) == (s1, Outcome::Nothing));
    }
    assert(pump(grown) == line_effect(s, line));
}

/// Whether an outcome is the final event.
pub open spec fn is_final(o: Outcome) -> bool {
    o matches Outcome::Yield(Event::Done { .. })
}

/// A terminal state is final: whatever is fed, nothing is yielded and the
/// state stays as it is.
pub proof fn law_terminal_is_silent(s: State, chunk: Seq<u8>)
    requires
        s.terminal,
    ensures
        step(s, chunk) == (s, Outcome::Nothing),
        run(s, chunk) == (s, Seq::<Outcome>::empty()),
{
}

/// Working through lines ends in a terminal state exactly when it comes to
/// the final event.
pub proof fn lemma_pump_final(s: State)
    requires
        !s.terminal,
    ensures
        pump(s).0.terminal <==> is_final(pump(s).1),
    decreases s.buffer.len(),
{
    lemma_first_newline(s.buffer);
    let n = first_newline(s.buffer);
    if 0 <= n < s.buffer.len() {
        let line = s.buffer.subrange(0, n);
        let rest = s.buffer.subrange(n + 1, s.buffer.len() as int);
        let (s1, o) = line_effect(with_buffer(s, rest), line);
        lemma_line_effect_buffer(with_buffer(s, rest), line, rest);
        if o is Nothing {
            lemma_pump_final(s1);
        }
    }
}

/// Whether the final event stands nowhere in the outcomes but at their end,
/// and stands there exactly when the state is terminal.
pub open spec fn ends_at_most_once(t: State, outcomes: Seq<Outcome>) -> bool {
    &&& forall|i: int| 0 <= i < outcomes.len() - 1 ==> !is_final(#[trigger] outcomes[i])
    &&& t.terminal <==> (outcomes.len() > 0 && is_final(outcomes.last()))
}

/// Working through whatever waits in a state: `pump`, then polling.
pub open spec fn settle(t: State) -> (State, Seq<Outcome>) {
    let (s1, o) = pump(t);
    if o is Nothing {
        (s1, Seq::empty())
    } else {
        (drain(s1).0, seq![o] + drain(s1).1)
    }
}

/// Polling an open state is working through what waits in it.
pub proof fn lemma_drain_is_settle(s: State)
    requires
        !s.terminal,
    ensures
        drain(s) == settle(s),
{
    assert(s.buffer + Seq::<u8>::empty() =~= s.buffer);
    assert(with_buffer(s, s.buffer + Seq::<u8>::empty()) == s);
}

/// Working through what waits in an open state yields the final event at
/// most once, and last.
pub proof fn lemma_settle_final(t: State)
    requires
        !t.terminal,
    ensures
        ends_at_most_once(settle(t).0, settle(t).1),
    decreases t.buffer.len(),
{
    lemma_pump_final(t);
    lemma_pump_shrinks(t);
    let (s1, o) = pump(t);
    if !(o is Nothing) {
        if !s1.terminal {
            lemma_drain_is_settle(s1);
            lemma_settle_final(s1);
            let rest = drain(s1).1;
            let all = seq![o] + rest;
            assert forall|i: int| 0 <= i < all.len() - 1 implies !is_final(#[trigger] all[i]) by {
                if i > 0 {
                    assert(all[i] == rest[i - 1]);
                }
            }
            if rest.len() > 0 {
                assert(all.last() == rest.last());
            }
        } else {
            assert(drain(s1).1 =~= Seq::<Outcome>::empty());
            assert((seq![o] + drain(s1).1).last() == o);
        }
    }
}

/// Exactly one final event. Whatever is fed to an open state, the final
/// event is yielded at most once and is then the last thing yielded, and it
/// is yielded exactly when the state becomes terminal; from then on
/// `law_terminal_is_silent` holds.
pub proof fn law_final_event_once(s: State, chunk: Seq<u8>)
    requires
        !s.terminal,
    ensures
        ends_at_most_once(run(s, chunk).0, run(s, chunk).1),
{
    lemma_settle_final(with_buffer(s, s.buffer + chunk));
}

/// Whether the bytes end in a line that is the end mark: whole lines, then
/// the end mark's line, then a line feed.
pub open spec fn ends_with_end_mark(bytes: Seq<u8>, head: Seq<u8>, line: Seq<u8>) -> bool {
    &&& bytes == head + line.push(10)
    &&& head.len() > 0 ==> head.last() == 10
    &&& first_newline(line) >= line.len()
    &&& frame_of(line) is Sentinel
}

proof fn lemma_settle_ends(t: State, head: Seq<u8>, line: Seq<u8>)
    requires
        !t.terminal,
        ends_with_end_mark(t.buffer, head, line),
    ensures
        settle(t).0.terminal,
    decreases head.len(),
{
    let tail = line.push(10);
    lemma_first_newline(line);
    lemma_first_newline(head);
    lemma_first_newline_append(head, tail);
    lemma_first_newline_append(line, seq![10u8]);
    assert(tail =~= line + seq![10u8]);
    assert(first_newline(seq![10u8]) == 0);
    let n = first_newline(t.buffer);
    if head.len() == 0 {
        assert(t.buffer =~= tail);
        assert(n == line.len());
        assert(t.buffer.subrange(0, n) =~= line);
    } else {
        assert(first_newline(head) < head.len()) by {
            if first_newline(head) >= head.len() {
                assert(head[head.len() - 1] != 10);
            }
        }
        assert(n == first_newline(head));
        let first = t.buffer.subrange(0, n);
        let rest = t.buffer.subrange(n + 1, t.buffer.len() as int);
        let shorter = head.subrange(n + 1, head.len() as int);
        assert(rest =~= shorter + tail);
        if shorter.len() > 0 {
            assert(shorter.last() == head.last());
        }
        lemma_line_effect_buffer(t, first, rest);
        let (s1, o) = line_effect(with_buffer(t, rest), first);
        if !(frame_of(first) is Sentinel) {
            lemma_settle_ends(s1, shorter, line);
            if !(o is Nothing) {
                lemma_drain_is_settle(s1);
            }
        }
    }
}

/// A stream that ends with the end mark ends. Where the bytes that wait,
/// with the chunk behind them, end in the end mark's line, feeding the chunk
/// to an open state leaves the state terminal; by `law_final_event_once` the
/// final event is then the last thing yielded, and yielded once.
pub proof fn law_end_mark_ends(s: State, chunk: Seq<u8>, head: Seq<u8>, line: Seq<u8>)
    requires
        !s.terminal,
        ends_with_end_mark(s.buffer + chunk, head, line),
    ensures
        run(s, chunk).0.terminal,
        run(s, chunk).1.len() > 0,
        is_final(run(s, chunk).1.last()),
{
    lemma_settle_ends(with_buffer(s, s.buffer + chunk), head, line);
    law_final_event_once(s, chunk);
}

/// A payload that reports an error comes to an error event, not to a failed
/// call, and leaves the state as it was.
pub proof fn law_error_in_band(s: State, line: Seq<u8>)
    requires
        frame_of(line) matches Frame::Data(p) && json_decoding(p) matches Ok(j) && error_in(j)
            is Some,
    ensures
        line_effect(s, line).0 == s,
        line_effect(s, line).1 matches Outcome::Yield(Event::Failure(_)),
{
}

} // verus!
