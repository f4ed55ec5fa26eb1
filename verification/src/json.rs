//! A plain model of JSON documents, and the decoder that fills it.

use vstd::prelude::*;
use crate::error::{ErrorKind, ProviderError};
use crate::text::{decimal, decimal_text, str_eq};

verus! {

/// The mathematical value of a JSON number: its numeral, and the integer it
/// is where it is one of 64 bits.
pub struct Numeral {
    pub text: Seq<char>,
    pub unsigned: Option<u64>,
    pub signed: Option<i64>,
}

/// The mathematical value of a JSON document.
pub enum Json {
    Null,
    Bool(bool),
    Number(Numeral),
    String(Seq<char>),
    Array(Seq<Json>),
    Object(Seq<(Seq<char>, Json)>),
}

/// A JSON number. `text` is its numeral; every number has one, a fraction
/// too. Where the number is an integer of 64 bits, `unsigned` holds it when
/// it is not negative and `signed` when it fits `i64`.
#[derive(Debug, PartialEq, Eq)]
pub struct JsonNumber {
    pub text: String,
    pub unsigned: Option<u64>,
    pub signed: Option<i64>,
}

impl View for JsonNumber {
    type V = Numeral;

    open spec fn view(&self) -> Numeral {
        Numeral { text: self.text@, unsigned: self.unsigned, signed: self.signed }
    }
}

/// One name and its value inside a JSON object.
#[derive(Debug, PartialEq, Eq)]
pub struct JsonMember {
    pub name: String,
    pub value: JsonValue,
}

/// A JSON document held in memory.
#[derive(Debug, PartialEq, Eq)]
pub enum JsonValue {
    Null,
    Bool(bool),
    Number(JsonNumber),
    String(String),
    Array(Vec<JsonValue>),
    Object(Vec<JsonMember>),
}

impl View for JsonValue {
    type V = Json;

    open spec fn view(&self) -> Json {
        value_model(*self)
    }
}

/// The document that a value in memory stands for.
pub open spec fn value_model(v: JsonValue) -> Json
    decreases v, 0nat,
{
    match v {
        JsonValue::Null => Json::Null,
        JsonValue::Bool(b) => Json::Bool(b),
        JsonValue::Number(n) => Json::Number(n@),
        JsonValue::String(s) => Json::String(s@),
        JsonValue::Array(items) => Json::Array(items_prefix(items, items@.len())),
        JsonValue::Object(members) => Json::Object(members_prefix(members, members@.len())),
    }
}

/// The documents of the first `n` items.
pub open spec fn items_prefix(items: Vec<JsonValue>, n: nat) -> Seq<Json>
    decreases items, n,
{
    if n == 0 || n > items@.len() {
        Seq::empty()
    } else {
        items_prefix(items, (n - 1) as nat).push(value_model(items[n - 1]))
    }
}

/// The names and documents of the first `n` members.
pub open spec fn members_prefix(members: Vec<JsonMember>, n: nat) -> Seq<(Seq<char>, Json)>
    decreases members, n,
{
    if n == 0 || n > members@.len() {
        Seq::empty()
    } else {
        members_prefix(members, (n - 1) as nat).push(
            (members[n - 1].name@, value_model(members[n - 1].value)),
        )
    }
}

/// The documents of a sequence of values, item by item.
pub open spec fn items_model(items: Seq<JsonValue>) -> Seq<Json> {
    Seq::new(items.len(), |i: int| items[i]@)
}

/// The names and documents of a sequence of members, one by one.
pub open spec fn members_model(members: Seq<JsonMember>) -> Seq<(Seq<char>, Json)> {
    Seq::new(members.len(), |i: int| (members[i].name@, members[i].value@))
}

proof fn lemma_items_prefix(items: Vec<JsonValue>, n: nat)
    requires
        n <= items@.len(),
    ensures
        items_prefix(items, n).len() == n,
        forall|k: int| 0 <= k < n ==> #[trigger] items_prefix(items, n)[k] == items@[k]@,
    decreases n,
{
    if n > 0 {
        lemma_items_prefix(items, (n - 1) as nat);
    }
}

proof fn lemma_members_prefix(members: Vec<JsonMember>, n: nat)
    requires
        n <= members@.len(),
    ensures
        members_prefix(members, n).len() == n,
        forall|k: int|
            0 <= k < n ==> #[trigger] members_prefix(members, n)[k] == (
                members@[k].name@,
                members@[k].value@,
            ),
    decreases n,
{
    if n > 0 {
        lemma_members_prefix(members, (n - 1) as nat);
    }
}

/// An array stands for the documents of its items, in order.
pub proof fn lemma_array_view(items: Vec<JsonValue>)
    ensures
        JsonValue::Array(items)@ == Json::Array(items_model(items@)),
{
    lemma_items_prefix(items, items@.len());
    assert(items_prefix(items, items@.len()) =~= items_model(items@));
}

/// An object stands for the names and documents of its members, in order.
pub proof fn lemma_object_view(members: Vec<JsonMember>)
    ensures
        JsonValue::Object(members)@ == Json::Object(members_model(members@)),
{
    lemma_members_prefix(members, members@.len());
    assert(members_prefix(members, members@.len()) =~= members_model(members@));
}

/// What `serde_json::from_slice` makes of a byte string, read as one
/// `serde_json::Value`: the document it holds, or the decoder's message when
/// it holds none. Of a number the document keeps the numeral that the
/// decoder prints for it and what `as_u64` and `as_i64` give. Of two members
/// of one name the decoder keeps the last. Nothing more is known of the
/// result here than that the bytes decide it.
pub uninterp spec fn json_decoding(bytes: Seq<u8>) -> Result<Json, Seq<char>>;

/// The view of a decoding outcome.
pub open spec fn decoding_view(r: Result<JsonValue, String>) -> Result<Json, Seq<char>> {
    match r {
        Ok(v) => Ok(v@),
        Err(e) => Err(e@),
    }
}

/// `serde_json::Value`, of which nothing is seen from here.
#[verifier::external_type_specification]
#[verifier::external_body]
pub struct ExOutsideValue(serde_json::Value);

/// The conversion inside `decode_json`: moves a `serde_json::Value` into the
/// library's own document type, variant by variant, asking a number for
/// its numeral (`to_string`), `as_u64` and `as_i64`. Nothing is claimed of
/// the outcome here; `decode_json` names it.
#[verifier::external_body]
fn from_outside(value: serde_json::Value) -> (r: JsonValue) {
    match value {
        serde_json::Value::Null => JsonValue::Null,
        serde_json::Value::Bool(b) => JsonValue::Bool(b),
        serde_json::Value::Number(n) => JsonValue::Number(
            JsonNumber { text: n.to_string(), unsigned: n.as_u64(), signed: n.as_i64() },
        ),
        serde_json::Value::String(s) => JsonValue::String(s),
        serde_json::Value::Array(a) => JsonValue::Array(a.into_iter().map(from_outside).collect()),
        serde_json::Value::Object(m) => JsonValue::Object(
            m.into_iter().map(|(name, v)| JsonMember { name, value: from_outside(v) }).collect(),
        ),
    }
}

/// Calls `serde_json::from_slice` for a whole document. The claim is that
/// the outcome depends on the bytes alone, which is why it has a name,
/// `json_decoding`; a failure carries the decoder's own message. Nesting
/// deeper than the decoder allows is a failure like any other.
#[verifier::external_body]
pub(crate) fn decode_json(bytes: &[u8]) -> (r: Result<JsonValue, String>)
    ensures
        decoding_view(r) == json_decoding(bytes@),
{
    match serde_json::from_slice::<serde_json::Value>(bytes) {
        Ok(v) => Ok(from_outside(v)),
        Err(e) => Err(e.to_string()),
    }
}

impl Json {
    /// The value of the first member called `name`, if this is an object
    /// that has one.
    pub open spec fn member(self, name: Seq<char>) -> Option<Json> {
        match self {
            Json::Object(members) => first_member(members, name),
            _ => None,
        }
    }

    /// The text, if this is a string.
    pub open spec fn text(self) -> Option<Seq<char>> {
        match self {
            Json::String(s) => Some(s),
            _ => None,
        }
    }

    /// The items, if this is an array.
    pub open spec fn items(self) -> Option<Seq<Json>> {
        match self {
            Json::Array(a) => Some(a),
            _ => None,
        }
    }

    /// The number as an unsigned integer, if this is one.
    pub open spec fn unsigned(self) -> Option<u64> {
        match self {
            Json::Number(n) => n.unsigned,
            _ => None,
        }
    }
}

/// The document of an unsigned integer: a number with the decimal numeral
/// that holds it, and holds it as a signed integer too where it fits.
pub open spec fn unsigned_document(n: u64) -> Json {
    Json::Number(
        Numeral {
            text: decimal(n as nat),
            unsigned: Some(n),
            signed: if n <= 0x7fff_ffff_ffff_ffff {
                Some(n as i64)
            } else {
                None
            },
        },
    )
}

/// The member called `name` of a document that may be missing.
pub open spec fn member_in(parent: Option<Json>, name: Seq<char>) -> Option<Json> {
    match parent {
        Some(j) => j.member(name),
        None => None,
    }
}

/// The text of a document that may be missing.
pub open spec fn text_of(j: Option<Json>) -> Option<Seq<char>> {
    match j {
        Some(v) => v.text(),
        None => None,
    }
}

/// The unsigned integer of a document that may be missing.
pub open spec fn unsigned_of(j: Option<Json>) -> Option<u64> {
    match j {
        Some(v) => v.unsigned(),
        None => None,
    }
}

/// The items of a document that may be missing.
pub open spec fn items_of(j: Option<Json>) -> Option<Seq<Json>> {
    match j {
        Some(v) => v.items(),
        None => None,
    }
}

/// The document behind a value that may be missing.
pub open spec fn opt_model(v: Option<&JsonValue>) -> Option<Json> {
    match v {
        Some(x) => Some(x@),
        None => None,
    }
}

/// The value of the first member of `members` called `name`.
pub open spec fn first_member(members: Seq<(Seq<char>, Json)>, name: Seq<char>) -> Option<Json>
    decreases members.len(),
{
    if members.len() == 0 {
        None
    } else if members[0].0 == name {
        Some(members[0].1)
    } else {
        first_member(members.drop_first(), name)
    }
}

impl JsonValue {
    /// Looks a member up by name.
    pub fn get(&self, name: &str) -> (r: Option<&JsonValue>)
        ensures
            match r {
                Some(v) => self@.member(name@) == Some(v@),
                None => self@.member(name@) is None,
            },
    {
        match self {
            JsonValue::Object(members) => {
                let mut i: usize = 0;
                let ghost all = members_model(members@);
                proof {
                    lemma_object_view(*members);
                    assert(all.skip(0) =~= all);
                }
                while i < members.len()
                    invariant
                        i <= members.len(),
                        self@ == Json::Object(all),
                        all.len() == members@.len(),
                        forall|k: int| 0 <= k < members@.len() ==> all[k] == (members@[k].name@, members@[k].value@),
                        first_member(all, name@) == first_member(all.skip(i as int), name@),
                    decreases members.len() - i,
                {
                    if str_eq(members[i].name.as_str(), name) {
                        return Some(&members[i].value);
                    }
                    proof {
                        assert(all.skip(i as int).drop_first() =~= all.skip(i + 1));
                    }
                    i += 1;
                }
                None
            },
            _ => None,
        }
    }

    /// Whether this is the null document.
    pub fn is_null(&self) -> (r: bool)
        ensures
            r == (self@ is Null),
    {
        match self {
            JsonValue::Null => true,
            _ => false,
        }
    }

    /// Whether this is an object.
    pub fn is_object(&self) -> (r: bool)
        ensures
            r == (self@ is Object),
    {
        match self {
            JsonValue::Object(_) => true,
            _ => false,
        }
    }

    /// The text of a string.
    pub fn as_text(&self) -> (r: Option<&String>)
        ensures
            match r {
                Some(t) => self@.text() == Some(t@),
                None => self@.text() is None,
            },
    {
        match self {
            JsonValue::String(s) => Some(s),
            _ => None,
        }
    }

    /// The value of an unsigned integer.
    pub fn as_unsigned(&self) -> (r: Option<u64>)
        ensures
            r == self@.unsigned(),
    {
        match self {
            JsonValue::Number(n) => n.unsigned,
            _ => None,
        }
    }

    /// The members of an object.
    pub fn as_members(&self) -> (r: Option<&Vec<JsonMember>>)
        ensures
            match r {
                Some(members) => self@ == Json::Object(members_model(members@)),
                None => !(self@ is Object),
            },
    {
        match self {
            JsonValue::Object(members) => {
                proof {
                    lemma_object_view(*members);
                }
                Some(members)
            },
            _ => None,
        }
    }

    /// A copy of the whole document.
    pub fn duplicate(&self) -> (r: JsonValue)
        ensures
            r@ == self@,
        decreases self,
    {
        match self {
            JsonValue::Null => JsonValue::Null,
            JsonValue::Bool(b) => JsonValue::Bool(*b),
            JsonValue::Number(n) => JsonValue::Number(
                JsonNumber { text: n.text.clone(), unsigned: n.unsigned, signed: n.signed },
            ),
            JsonValue::String(s) => JsonValue::String(s.clone()),
            JsonValue::Array(items) => {
                let mut out: Vec<JsonValue> = Vec::new();
                let mut i: usize = 0;
                while i < items.len()
                    invariant
                        i <= items@.len(),
                        out@.len() == i,
                        self matches JsonValue::Array(v) && v == items,
                        forall|k: int| 0 <= k < i ==> out@[k]@ == items@[k]@,
                    decreases items@.len() - i,
                {
                    out.push(items[i].duplicate());
                    i += 1;
                }
                proof {
                    lemma_array_view(*items);
                    lemma_array_view(out);
                    assert(items_model(out@) =~= items_model(items@));
                }
                JsonValue::Array(out)
            },
            JsonValue::Object(members) => {
                let mut out: Vec<JsonMember> = Vec::new();
                let mut i: usize = 0;
                while i < members.len()
                    invariant
                        i <= members@.len(),
                        out@.len() == i,
                        self matches JsonValue::Object(v) && v == members,
                        forall|k: int|
                            0 <= k < i ==> out@[k].name@ == members@[k].name@ && out@[k].value@
                                == members@[k].value@,
                    decreases members@.len() - i,
                {
                    let name = members[i].name.clone();
                    let value = members[i].value.duplicate();
                    out.push(JsonMember { name, value });
                    i += 1;
                }
                proof {
                    lemma_object_view(*members);
                    lemma_object_view(out);
                    assert(members_model(out@) =~= members_model(members@));
                }
                JsonValue::Object(out)
            },
        }
    }

    /// The document of a text.
    pub fn text(s: &str) -> (r: JsonValue)
        ensures
            r@ == Json::String(s@),
    {
        JsonValue::String(s.to_owned())
    }

    /// The document of an unsigned integer.
    pub fn unsigned(n: u64) -> (r: JsonValue)
        ensures
            r@ == unsigned_document(n),
    {
        let signed = if n <= 0x7fff_ffff_ffff_ffff {
            Some(n as i64)
        } else {
            None
        };
        JsonValue::Number(JsonNumber { text: decimal_text(n), unsigned: Some(n), signed })
    }

    /// The object with the given members.
    pub fn object(members: Vec<JsonMember>) -> (r: JsonValue)
        ensures
            r@ == Json::Object(members_model(members@)),
    {
        proof {
            lemma_object_view(members);
        }
        JsonValue::Object(members)
    }

    /// The array with the given items.
    pub fn array(items: Vec<JsonValue>) -> (r: JsonValue)
        ensures
            r@ == Json::Array(items_model(items@)),
    {
        proof {
            lemma_array_view(items);
        }
        JsonValue::Array(items)
    }

    /// The number, if this is one.
    pub fn as_number(&self) -> (r: Option<&JsonNumber>)
        ensures
            match r {
                Some(n) => self@ == Json::Number(n@),
                None => !(self@ is Number),
            },
    {
        match self {
            JsonValue::Number(n) => Some(n),
            _ => None,
        }
    }

    /// The items of an array.
    pub fn as_items(&self) -> (r: Option<&Vec<JsonValue>>)
        ensures
            match r {
                Some(items) => self@.items() == Some(items_model(items@)),
                None => self@.items() is None,
            },
    {
        match self {
            JsonValue::Array(items) => {
                proof {
                    lemma_array_view(*items);
                }
                Some(items)
            },
            _ => None,
        }
    }
}

/// Looks a member up in a value that may be missing.
pub fn member_of<'a>(parent: Option<&'a JsonValue>, name: &str) -> (r: Option<&'a JsonValue>)
    ensures
        opt_model(r) == member_in(opt_model(parent), name@),
{
    match parent {
        Some(v) => v.get(name),
        None => None,
    }
}

/// A copy of the text of a value that may be missing.
pub fn text_in(v: Option<&JsonValue>) -> (r: Option<String>)
    ensures
        crate::error::opt_text(r) == text_of(opt_model(v)),
{
    match v {
        Some(x) => match x.as_text() {
            Some(t) => Some(t.clone()),
            None => None,
        },
        None => None,
    }
}

/// The unsigned integer of a value that may be missing.
pub fn unsigned_in(v: Option<&JsonValue>) -> (r: Option<u64>)
    ensures
        r == unsigned_of(opt_model(v)),
{
    match v {
        Some(x) => x.as_unsigned(),
        None => None,
    }
}

/// Adds a member behind those that are there.
pub fn push_member(members: &mut Vec<JsonMember>, name: &str, value: JsonValue)
    ensures
        members_model(final(members)@) == members_model(old(members)@).push((name@, value@)),
{
    members.push(JsonMember { name: name.to_owned(), value });
    assert(members_model(members@) =~= members_model(old(members)@).push((name@, value@)));
}

/// Whether some member is called `name`.
pub fn has_member(members: &Vec<JsonMember>, name: &str) -> (r: bool)
    ensures
        r == (first_member(members_model(members@), name@) is Some),
{
    let ghost all = members_model(members@);
    let mut i: usize = 0;
    assert(all.skip(0) =~= all);
    while i < members.len()
        invariant
            i <= members@.len(),
            all == members_model(members@),
            first_member(all, name@) == first_member(all.skip(i as int), name@),
        decreases members@.len() - i,
    {
        if str_eq(members[i].name.as_str(), name) {
            return true;
        }
        assert(all.skip(i as int).drop_first() =~= all.skip(i + 1));
        i += 1;
    }
    false
}

/// The message of the error for bytes that are no JSON document.
pub open spec fn not_json_message(m: Seq<char>) -> Seq<char> {
    "Invalid JSON: "@ + m
}

/// Decodes a whole JSON document. Bytes that hold none are
/// `ResponseParseFailed`, with the decoder's message.
pub fn parse_json(bytes: &[u8]) -> (r: Result<JsonValue, ProviderError>)
    ensures
        match json_decoding(bytes@) {
            Ok(j) => r matches Ok(v) && v@ == j,
            Err(m) => r matches Err(e) && e.is_plain(
                ErrorKind::ResponseParseFailed,
                not_json_message(m),
            ),
        },
{
    match decode_json(bytes) {
        Ok(v) => Ok(v),
        Err(m) => {
            let mut message = crate::text::owned("Invalid JSON: ");
            message.append(m.as_str());
            Err(ProviderError::plain(ErrorKind::ResponseParseFailed, message))
        },
    }
}

} // verus!
