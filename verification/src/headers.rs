//! A mapping from header names to values in which no name occurs twice.
//!
//! The mapping is a list of entries with distinct names rather than a hash
//! map of std: the verifier has no model of `String` keys, so of a
//! `HashMap<String, String>` not even the length after one `insert` can be
//! proved. The view is the `Map` that a hash map would be.

use vstd::prelude::*;
use vstd::string::*;
use vstd::utf8::encode_utf8;
use crate::error::{ErrorKind, ProviderError};
use crate::text::{joined, str_eq};

verus! {

/// One header: a name and its value.
#[derive(Debug, PartialEq, Eq)]
pub struct Header {
    pub name: String,
    pub value: String,
}

/// Whether no two entries share a name.
pub open spec fn distinct_names(entries: Seq<Header>) -> bool {
    forall|i: int, j: int|
        0 <= i < j < entries.len() ==> entries[i].name@ != entries[j].name@
}

/// Whether some entry is called `name`.
pub open spec fn has_name(entries: Seq<Header>, name: Seq<char>) -> bool {
    exists|i: int| 0 <= i < entries.len() && #[trigger] entries[i].name@ == name
}

/// The place of an entry called `name`.
pub open spec fn place_of(entries: Seq<Header>, name: Seq<char>) -> int {
    choose|i: int| 0 <= i < entries.len() && #[trigger] entries[i].name@ == name
}

/// The mapping that a list of entries stands for.
pub open spec fn entries_map(entries: Seq<Header>) -> Map<Seq<char>, Seq<char>> {
    Map::new(
        |name: Seq<char>| has_name(entries, name),
        |name: Seq<char>| entries[place_of(entries, name)].value@,
    )
}

/// Adding an entry under a name that is not there yet adds that name.
pub proof fn lemma_push_entry(entries: Seq<Header>, h: Header)
    requires
        distinct_names(entries),
        !has_name(entries, h.name@),
    ensures
        distinct_names(entries.push(h)),
        entries_map(entries.push(h)) == entries_map(entries).insert(h.name@, h.value@),
{
    let after = entries.push(h);
    assert forall|i: int, j: int| 0 <= i < j < after.len() implies after[i].name@
        != after[j].name@ by {
        if j == entries.len() {
            assert(entries[i].name@ == after[i].name@);
        }
    }
    assert forall|name: Seq<char>| has_name(after, name) <==> (has_name(entries, name) || name
        == h.name@) by {
        if has_name(after, name) {
            let i = place_of(after, name);
            if i < entries.len() {
                assert(entries[i].name@ == name);
            }
        }
        if has_name(entries, name) {
            let i = place_of(entries, name);
            assert(after[i].name@ == name);
        }
        if name == h.name@ {
            assert(after[entries.len() as int].name@ == name);
        }
    }
    assert forall|name: Seq<char>| has_name(after, name) implies #[trigger] entries_map(after)[name]
        == entries_map(entries).insert(h.name@, h.value@)[name] by {
        let i = place_of(after, name);
        if name == h.name@ {
            if i < entries.len() {
                assert(entries[i].name@ == name);
            }
        } else {
            let j = place_of(entries, name);
            assert(after[j].name@ == name);
            if i != j {
                if i < j {
                    assert(after[i].name@ != after[j].name@);
                } else {
                    assert(after[j].name@ != after[i].name@);
                }
            }
        }
    }
    assert(entries_map(after) =~= entries_map(entries).insert(h.name@, h.value@));
}

/// Putting an entry in the place of one of the same name changes that
/// name's value and nothing else.
pub proof fn lemma_replace_entry(entries: Seq<Header>, at: int, h: Header)
    requires
        distinct_names(entries),
        0 <= at < entries.len(),
        entries[at].name@ == h.name@,
    ensures
        distinct_names(entries.update(at, h)),
        entries_map(entries.update(at, h)) == entries_map(entries).insert(h.name@, h.value@),
{
    let after = entries.update(at, h);
    assert forall|i: int, j: int| 0 <= i < j < after.len() implies after[i].name@
        != after[j].name@ by {
        assert(after[i].name@ == entries[i].name@);
        assert(after[j].name@ == entries[j].name@);
    }
    assert forall|name: Seq<char>| has_name(after, name) <==> has_name(entries, name) by {
        if has_name(after, name) {
            let i = place_of(after, name);
            assert(entries[i].name@ == name);
        }
        if has_name(entries, name) {
            let i = place_of(entries, name);
            assert(after[i].name@ == name);
        }
    }
    assert(has_name(entries, h.name@));
    assert forall|name: Seq<char>| has_name(after, name) implies #[trigger] entries_map(after)[name]
        == entries_map(entries).insert(h.name@, h.value@)[name] by {
        let i = place_of(after, name);
        let j = place_of(entries, name);
        assert(after[j].name@ == name);
        if i != j {
            if i < j {
                assert(after[i].name@ != after[j].name@);
            } else {
                assert(after[j].name@ != after[i].name@);
            }
        }
        if name == h.name@ {
            if j != at {
                if j < at {
                    assert(entries[j].name@ != entries[at].name@);
                } else {
                    assert(entries[at].name@ != entries[j].name@);
                }
            }
        }
    }
    assert(entries_map(after) =~= entries_map(entries).insert(h.name@, h.value@));
}

/// The value found at a place is the value the mapping gives its name.
pub proof fn lemma_entry_in_map(entries: Seq<Header>, at: int)
    requires
        distinct_names(entries),
        0 <= at < entries.len(),
    ensures
        entries_map(entries).contains_key(entries[at].name@),
        entries_map(entries)[entries[at].name@] == entries[at].value@,
{
    let name = entries[at].name@;
    assert(has_name(entries, name));
    let j = place_of(entries, name);
    if j != at {
        if j < at {
            assert(entries[j].name@ != entries[at].name@);
        } else {
            assert(entries[at].name@ != entries[j].name@);
        }
    }
}

/// Header names mapped to values. A name is held once; names differ by
/// their exact characters. Two mappings are compared with `same_as`, which
/// goes by what they hold and not by the order in which it came.
#[derive(Debug)]
pub struct HeaderMap {
    entries: Vec<Header>,
}

impl View for HeaderMap {
    type V = Map<Seq<char>, Seq<char>>;

    closed spec fn view(&self) -> Map<Seq<char>, Seq<char>> {
        entries_map(self.entries@)
    }
}

impl HeaderMap {
    #[verifier::type_invariant]
    spec fn well_formed(self) -> bool {
        distinct_names(self.entries@)
    }

    /// The entries behind the mapping.
    pub closed spec fn listing(self) -> Seq<Header> {
        self.entries@
    }

    /// A mapping without entries.
    pub fn new() -> (m: HeaderMap)
        ensures
            m@ == Map::<Seq<char>, Seq<char>>::empty(),
            m.listing().len() == 0,
    {
        let m = HeaderMap { entries: Vec::new() };
        assert(m@ =~= Map::<Seq<char>, Seq<char>>::empty());
        m
    }

    /// The number of entries. The mapping is the one the listing stands
    /// for, and the listing names nothing twice.
    pub fn len(&self) -> (n: usize)
        ensures
            n == self.listing().len(),
            self@ == entries_map(self.listing()),
            distinct_names(self.listing()),
    {
        proof {
            use_type_invariant(self);
        }
        self.entries.len()
    }

    /// The entry at a place of the listing.
    pub fn entry(&self, at: usize) -> (h: &Header)
        requires
            at < self.listing().len(),
        ensures
            *h == self.listing()[at as int],
            self@.contains_key(h.name@),
            self@[h.name@] == h.value@,
    {
        proof {
            use_type_invariant(self);
            lemma_entry_in_map(self.entries@, at as int);
        }
        &self.entries[at]
    }

    /// The place of the entry called `name`, if there is one.
    fn find(&self, name: &str) -> (r: Option<usize>)
        ensures
            match r {
                Some(at) => at < self.entries@.len() && self.entries@[at as int].name@ == name@,
                None => !has_name(self.entries@, name@),
            },
    {
        let mut i: usize = 0;
        while i < self.entries.len()
            invariant
                i <= self.entries@.len(),
                forall|k: int| 0 <= k < i ==> self.entries@[k].name@ != name@,
            decreases self.entries@.len() - i,
        {
            if str_eq(self.entries[i].name.as_str(), name) {
                return Some(i);
            }
            i += 1;
        }
        None
    }

    /// The value held under `name`.
    pub fn get(&self, name: &str) -> (r: Option<&String>)
        ensures
            match r {
                Some(v) => self@.contains_key(name@) && self@[name@] == v@,
                None => !self@.contains_key(name@),
            },
    {
        proof {
            use_type_invariant(self);
        }
        match self.find(name) {
            Some(at) => {
                proof {
                    lemma_entry_in_map(self.entries@, at as int);
                }
                Some(&self.entries[at].value)
            },
            None => None,
        }
    }

    /// Puts `value` under `name`; a value that was there is replaced.
    pub fn insert(&mut self, name: String, value: String)
        ensures
            final(self)@ == old(self)@.insert(name@, value@),
    {
        proof {
            use_type_invariant(&*self);
        }
        let found = self.find(name.as_str());
        let h = Header { name, value };
        let mut entries: Vec<Header> = Vec::new();
        core::mem::swap(&mut self.entries, &mut entries);
        match found {
            Some(at) => {
                proof {
                    lemma_replace_entry(entries@, at as int, h);
                }
                entries.set(at, h);
            },
            None => {
                proof {
                    lemma_push_entry(entries@, h);
                }
                entries.push(h);
            },
        }
        self.entries = entries;
    }

    /// Puts every entry of `other` into this mapping; where both hold a
    /// name, the value of `other` stays.
    pub fn extend(&mut self, other: &HeaderMap)
        ensures
            final(self)@ == old(self)@.union_prefer_right(other@),
    {
        let n = other.len();
        let ghost list = other.listing();
        let ghost start = self@;
        let mut i: usize = 0;
        assert(start.union_prefer_right(entries_map(list.take(0))) =~= start);
        while i < n
            invariant
                i <= n,
                n == list.len(),
                list == other.listing(),
                distinct_names(list),
                self@ == start.union_prefer_right(entries_map(list.take(i as int))),
            decreases n - i,
        {
            let h = other.entry(i);
            proof {
                let head = list.take(i as int);
                assert(!has_name(head, list[i as int].name@)) by {
                    if has_name(head, list[i as int].name@) {
                        let k = place_of(head, list[i as int].name@);
                        assert(list[k].name@ == head[k].name@);
                    }
                }
                assert(distinct_names(head)) by {
                    assert forall|a: int, b: int| 0 <= a < b < head.len() implies head[a].name@
                        != head[b].name@ by {
                        assert(head[a] == list[a] && head[b] == list[b]);
                    }
                }
                lemma_push_entry(head, list[i as int]);
                assert(head.push(list[i as int]) =~= list.take(i + 1));
                assert(start.union_prefer_right(entries_map(head)).insert(h.name@, h.value@)
                    =~= start.union_prefer_right(entries_map(head).insert(h.name@, h.value@)));
            }
            self.insert(h.name.clone(), h.value.clone());
            i += 1;
        }
        assert(list.take(n as int) =~= list);
    }
}

// ---------------------------------------------------------------------
// What the transport accepts

/// Whether a byte may stand in a header name: a letter, a digit, or one of
/// ``!#$%&'*+-.^_`|~``.
pub open spec fn is_token_byte(b: u8) -> bool {
    ||| b == 33
    ||| 35 <= b <= 39
    ||| b == 42
    ||| b == 43
    ||| b == 45
    ||| b == 46
    ||| 48 <= b <= 57
    ||| 65 <= b <= 90
    ||| 94 <= b <= 122
    ||| b == 124
    ||| b == 126
}

/// Whether the bytes make a header name: at least one and fewer than 65536
/// of them, each a token byte.
pub open spec fn header_name_ok(bytes: Seq<u8>) -> bool {
    &&& 1 <= bytes.len() <= 65535
    &&& forall|i: int| 0 <= i < bytes.len() ==> is_token_byte(#[trigger] bytes[i])
}

/// Whether a byte may stand in a header value: a tab, or anything from the
/// space on but the delete character.
pub open spec fn is_value_byte(b: u8) -> bool {
    (b >= 32 && b != 127) || b == 9
}

/// Whether the bytes make a header value.
pub open spec fn header_value_ok(bytes: Seq<u8>) -> bool {
    forall|i: int| 0 <= i < bytes.len() ==> is_value_byte(#[trigger] bytes[i])
}

/// Asks `reqwest::header::HeaderName::from_bytes` whether it takes the name.
/// It does so exactly for names that are not empty, shorter than 65536 bytes
/// and made of token bytes.
#[verifier::external_body]
fn header_name_accepted(name: &str) -> (ok: bool)
    ensures
        ok == header_name_ok(encode_utf8(name@)),
{
    reqwest::header::HeaderName::from_bytes(name.as_bytes()).is_ok()
}

/// Asks `reqwest::header::HeaderValue::from_str` whether it takes the value.
/// It does so exactly for values in which every byte is a tab or at least a
/// space and not the delete character.
#[verifier::external_body]
fn header_value_accepted(value: &str) -> (ok: bool)
    ensures
        ok == header_value_ok(encode_utf8(value@)),
{
    reqwest::header::HeaderValue::from_str(value).is_ok()
}

/// Whether everything that `a` holds, `b` holds too, with the same value.
pub open spec fn is_within(a: Map<Seq<char>, Seq<char>>, b: Map<Seq<char>, Seq<char>>) -> bool {
    forall|name: Seq<char>| #[trigger]
        a.contains_key(name) ==> b.contains_key(name) && b[name] == a[name]
}

/// Whether the transport takes every header of a mapping.
pub open spec fn all_accepted(headers: Map<Seq<char>, Seq<char>>) -> bool {
    forall|name: Seq<char>|
        headers.contains_key(name) ==> header_problem(name, #[trigger] headers[name]) is None
}

/// Whether a message says what is wrong with one of the headers.
pub open spec fn names_a_problem(headers: Map<Seq<char>, Seq<char>>, message: Seq<char>) -> bool {
    exists|name: Seq<char>|
        headers.contains_key(name) && #[trigger] header_problem(name, headers[name]) == Some(
            message,
        )
}

/// What is wrong with a header, if anything: the message that says so.
pub open spec fn header_problem(name: Seq<char>, value: Seq<char>) -> Option<Seq<char>> {
    if !header_name_ok(encode_utf8(name)) {
        Some("Invalid header name "@ + name)
    } else if !header_value_ok(encode_utf8(value)) {
        Some("Invalid header value for "@ + name)
    } else {
        None
    }
}

impl HeaderMap {
    /// Whether every entry of this mapping is in `other`, with its value.
    fn within(&self, other: &HeaderMap) -> (r: bool)
        ensures
            r == is_within(self@, other@),
    {
        let n = self.len();
        let ghost list = self.listing();
        let mut i: usize = 0;
        while i < n
            invariant
                i <= n,
                n == list.len(),
                list == self.listing(),
                self@ == entries_map(list),
                distinct_names(list),
                forall|k: int|
                    0 <= k < i ==> other@.contains_key((#[trigger] list[k]).name@)
                        && other@[list[k].name@] == list[k].value@,
            decreases n - i,
        {
            let h = self.entry(i);
            let same = match other.get(h.name.as_str()) {
                Some(v) => *v == h.value,
                None => false,
            };
            if !same {
                assert(self@.contains_key(h.name@));
                assert(!(other@.contains_key(h.name@) && other@[h.name@] == self@[h.name@]));
                return false;
            }
            i += 1;
        }
        assert forall|name: Seq<char>| #[trigger]
            self@.contains_key(name) implies other@.contains_key(name) && other@[name]
            == self@[name] by {
            let k = place_of(list, name);
            assert(list[k].name@ == name);
        }
        true
    }

    /// Whether the two mappings hold the same values under the same names.
    pub fn same_as(&self, other: &HeaderMap) -> (r: bool)
        ensures
            r == (self@ == other@),
    {
        let r = self.within(other) && other.within(self);
        proof {
            if r {
                assert(self@ =~= other@);
            }
        }
        r
    }

    /// Checks that the transport will take every header. Where it will not,
    /// the error is `RequestBuildFailed` and says what is wrong with one of
    /// the headers it refuses.
    pub fn validate(&self) -> (r: Result<(), ProviderError>)
        ensures
            match r {
                Ok(_) => all_accepted(self@),
                Err(e) => !all_accepted(self@) && names_a_problem(self@, e.message@) && e.is_plain(
                    ErrorKind::RequestBuildFailed,
                    e.message@,
                ),
            },
    {
        let n = self.len();
        let ghost list = self.listing();
        let mut i: usize = 0;
        while i < n
            invariant
                i <= n,
                n == list.len(),
                list == self.listing(),
                self@ == entries_map(list),
                distinct_names(list),
                forall|k: int|
                    0 <= k < i ==> header_problem(
                        (#[trigger] list[k]).name@,
                        list[k].value@,
                    ) is None,
            decreases n - i,
        {
            let h = self.entry(i);
            if !header_name_accepted(h.name.as_str()) {
                let e = ProviderError::plain(
                    ErrorKind::RequestBuildFailed,
                    joined("Invalid header name ", h.name.as_str()),
                );
                assert(header_problem(h.name@, self@[h.name@]) == Some(e.message@));
                return Err(e);
            }
            if !header_value_accepted(h.value.as_str()) {
                let e = ProviderError::plain(
                    ErrorKind::RequestBuildFailed,
                    joined("Invalid header value for ", h.name.as_str()),
                );
                assert(header_problem(h.name@, self@[h.name@]) == Some(e.message@));
                return Err(e);
            }
            i += 1;
        }
        assert forall|name: Seq<char>| self@.contains_key(name) implies header_problem(
            name,
            #[trigger] self@[name],
        ) is None by {
            let k = place_of(list, name);
            assert(list[k].name@ == name);
        }
        Ok(())
    }
}

} // verus!
