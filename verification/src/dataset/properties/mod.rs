//! Dataset properties.
//!
//! A property file is text. Each of its lines is a comment, which starts
//! with `#`, a blank line, or a `key=value` pair.
use crate::table::{increasing, Table};
use crate::text::{
    chars_of, find, find_in, is_space, is_space_char, lemma_lex_order, lex_lt, parse_unsigned,
    spec_parse_unsigned, str_lt, text_from_utf8, text_of,
};
use vstd::prelude::*;
use vstd::utf8::{decode_utf8, valid_utf8};

pub mod error;

verus! {

/// What one line of a property file holds.
pub enum Line {
    /// A comment or a blank line.
    Skipped,
    /// A key with its value.
    Entry { key: Seq<char>, value: Seq<char> },
    /// Neither: the line has no `=`.
    Malformed,
}

/// Whether `line` holds nothing but blanks.
pub open spec fn is_blank(line: Seq<char>) -> bool {
    forall|i: int| 0 <= i < line.len() ==> is_space(#[trigger] line[i])
}

/// Reads one line: the key is what stands before the first `=`, the value
/// what stands behind it.
pub open spec fn read_line(line: Seq<char>) -> Line {
    if line.len() > 0 && line[0] == '#' {
        Line::Skipped
    } else if is_blank(line) {
        Line::Skipped
    } else if find(line, '=') >= line.len() {
        Line::Malformed
    } else {
        Line::Entry { key: line.take(find(line, '=')), value: line.skip(find(line, '=') + 1) }
    }
}

/// Reads `text` line by line and writes the pairs whose key is in `wanted`
/// over `seen`, a later pair over an earlier one with the same key. `None`
/// where a line is malformed. A line ends before each `\n` and at the end of
/// the text.
pub open spec fn parse_onto(
    text: Seq<char>,
    wanted: Set<Seq<char>>,
    seen: Map<Seq<char>, Seq<char>>,
) -> Option<Map<Seq<char>, Seq<char>>>
    decreases text.len(),
    via parse_onto_decreases
{
    if text.len() == 0 {
        Some(seen)
    } else {
        let end = find(text, '\n');
        let rest = if end < text.len() {
            text.skip(end + 1)
        } else {
            Seq::empty()
        };
        match read_line(text.take(end)) {
            Line::Malformed => None,
            Line::Skipped => parse_onto(rest, wanted, seen),
            Line::Entry { key, value } => parse_onto(
                rest,
                wanted,
                if wanted.contains(key) {
                    seen.insert(key, value)
                } else {
                    seen
                },
            ),
        }
    }
}

#[via_fn]
proof fn parse_onto_decreases(text: Seq<char>, wanted: Set<Seq<char>>, seen: Map<Seq<char>, Seq<char>>) {
    crate::text::lemma_find_is_first(text, '\n');
}

/// The properties that the text of a property file holds, or `None` where
/// one of its lines is malformed.
pub open spec fn spec_parse(text: Seq<char>) -> Option<Map<Seq<char>, Seq<char>>> {
    parse_onto(text, Set::full(), Map::empty())
}

/// The properties that the bytes of a property file hold, or `None` where
/// the bytes are no UTF-8 or one of the lines is malformed.
pub open spec fn spec_parse_bytes(bytes: Seq<u8>) -> Option<Map<Seq<char>, Seq<char>>> {
    if valid_utf8(bytes) {
        spec_parse(decode_utf8(bytes))
    } else {
        None
    }
}

/// As `spec_parse`, but only the properties with a key among `keys`.
pub open spec fn spec_extract(text: Seq<char>, keys: Seq<Seq<char>>) -> Option<Map<Seq<char>, Seq<char>>> {
    parse_onto(text, keys.to_set(), Map::empty())
}

/// The views of `keys`, in the same order.
pub open spec fn key_views(keys: Seq<String>) -> Seq<Seq<char>> {
    Seq::new(keys.len(), |i: int| keys[i]@)
}

/// The properties of one file: a value for each key.
#[derive(Debug)]
pub struct Properties {
    /// Sorted by key.
    inner: Table<String, String>,
}

impl View for Properties {
    type V = Map<Seq<char>, Seq<char>>;

    closed spec fn view(&self) -> Map<Seq<char>, Seq<char>> {
        self.inner@.map_values(|value: String| value@)
    }
}

/// Whether one of `keys` equals `key`.
fn holds(keys: &Vec<String>, key: &String) -> (r: bool)
    ensures
        r == key_views(keys@).to_set().contains(key@),
{
    let mut i: usize = 0;
    while i < keys.len()
        invariant
            i <= keys.len(),
            forall|j: int| 0 <= j < i ==> keys@[j]@ != key@,
        decreases keys.len() - i,
    {
        if keys[i] == *key {
            assert(key_views(keys@)[i as int] == key@);
            return true;
        }
        i += 1;
    }
    proof {
        if key_views(keys@).to_set().contains(key@) {
            let j = choose|j: int| 0 <= j < keys.len() && key_views(keys@)[j] == key@;
            assert(keys@[j]@ == key@);
        }
    }
    false
}

/// Whether `chars[from..to]` holds nothing but blanks.
fn blank(chars: &Vec<char>, from: usize, to: usize) -> (r: bool)
    requires
        from <= to <= chars.len(),
    ensures
        r == is_blank(chars@.subrange(from as int, to as int)),
{
    let mut i: usize = from;
    while i < to
        invariant
            from <= i <= to <= chars.len(),
            forall|j: int| from <= j < i ==> is_space(chars@[j]),
        decreases to - i,
    {
        if !is_space_char(chars[i]) {
            assert(!is_space(chars@.subrange(from as int, to as int)[i - from]));
            return false;
        }
        i += 1;
    }
    true
}

/// Reads `text`, keeping the pairs whose key is among `keys`, or all of
/// them where `keys` is `None`.
fn parse(text: &str, keys: Option<&Vec<String>>) -> (r: Result<Properties, error::InvalidFormat>)
    ensures
        match parse_onto(
            text@,
            match keys {
                Some(keys) => key_views(keys@).to_set(),
                None => Set::full(),
            },
            Map::empty(),
        ) {
            Some(found) => r matches Ok(properties) && properties@ == found,
            None => r is Err,
        },
{
    let ghost wanted: Set<Seq<char>> = match keys {
        Some(keys) => key_views(keys@).to_set(),
        None => Set::full(),
    };
    let chars = chars_of(text);
    let mut inner: Table<String, String> = Table::new();
    let mut at: usize = 0;
    assert(chars@.skip(0) =~= text@);
    assert(inner@.map_values(|value: String| value@) =~= Map::<Seq<char>, Seq<char>>::empty());
    while at < chars.len()
        invariant
            at <= chars.len(),
            wanted == match keys {
                Some(keys) => key_views(keys@).to_set(),
                None => Set::full(),
            },
            parse_onto(text@, wanted, Map::empty()) == parse_onto(
                chars@.skip(at as int),
                wanted,
                inner@.map_values(|value: String| value@),
            ),
        decreases chars.len() - at,
    {
        let ghost rest = chars@.skip(at as int);
        let ghost seen = inner@.map_values(|value: String| value@);
        let end = find_in(&chars, at, chars.len(), '\n');
        let ghost line = chars@.subrange(at as int, end as int);
        proof {
            assert(chars@.subrange(at as int, chars.len() as int) =~= rest);
            assert(rest.take(end - at) =~= line);
            if end < chars.len() {
                assert(rest.skip(end - at + 1) =~= chars@.skip(end + 1));
            } else {
                assert(chars@.skip(chars.len() as int) =~= Seq::<char>::empty());
            }
        }
        let next: usize = if end < chars.len() {
            end + 1
        } else {
            end
        };
        if at < end && chars[at] == '#' {
        } else if blank(&chars, at, end) {
        } else {
            let eq = find_in(&chars, at, end, '=');
            if eq >= end {
                return Err(error::InvalidFormat);
            }
            let key = text_of(&chars, at, eq);
            let value = text_of(&chars, eq + 1, end);
            proof {
                assert(line.take(eq - at) =~= key@);
                assert(line.skip(eq - at + 1) =~= value@);
            }
            let keep = match keys {
                Some(keys) => holds(keys, &key),
                None => true,
            };
            if keep {
                let ghost before = inner@;
                inner.insert(key, value);
                assert(inner@.map_values(|value: String| value@) =~= seen.insert(key@, value@));
            }
        }
        at = next;
    }
    assert(chars@.skip(at as int) =~= Seq::<char>::empty());
    Ok(Properties { inner })
}

impl Properties {
    /// Reads the text of a property file.
    pub fn new(text: &str) -> (r: Result<Self, error::InvalidFormat>)
        ensures
            match spec_parse(text@) {
                Some(found) => r matches Ok(properties) && properties@ == found,
                None => r is Err,
            },
    {
        parse(text, None)
    }

    /// Reads the bytes of a property file.
    pub fn from_bytes(bytes: Vec<u8>) -> (r: Result<Self, error::InvalidFormat>)
        ensures
            match spec_parse_bytes(bytes@) {
                Some(found) => r matches Ok(properties) && properties@ == found,
                None => r is Err,
            },
    {
        match text_from_utf8(bytes) {
            Some(text) => Self::new(text.as_str()),
            None => Err(error::InvalidFormat),
        }
    }

    /// Only extract keys matching those in `keys`.
    pub fn extract(text: &str, keys: &Vec<String>) -> (r: Result<Self, error::InvalidFormat>)
        ensures
            match spec_extract(text@, key_views(keys@)) {
                Some(found) => r matches Ok(properties) && properties@ == found,
                None => r is Err,
            },
    {
        parse(text, Some(keys))
    }

    /// The value of the property `key`, if there is one.
    pub fn get(&self, key: &str) -> (r: Option<&String>)
        ensures
            r is Some <==> self@.contains_key(key@),
            r matches Some(value) ==> value@ == self@[key@],
    {
        let count = self.inner.len();
        proof {
            self.inner.lemma_wf();
        }
        let ghost keys = self.inner.ranks();
        let mut low: usize = 0;
        let mut high: usize = count;
        while low < high
            invariant
                low <= high <= count,
                self.inner.wf(),
                keys == self.inner.ranks(),
                count == keys.len(),
                count == self.inner.items().len(),
                increasing::<String>(keys),
                forall|i: int| 0 <= i < low ==> lex_lt(#[trigger] keys[i], key@),
                forall|i: int| high <= i < count ==> lex_lt(key@, #[trigger] keys[i]),
            decreases high - low,
        {
            let mid: usize = low + (high - low) / 2;
            let here = self.inner.key_at(mid);
            if str_lt(here.as_str(), key) {
                assert forall|i: int| 0 <= i < mid + 1 implies lex_lt(#[trigger] keys[i], key@) by {
                    if i < mid {
                        assert(lex_lt(keys[i], keys[mid as int]));
                        lemma_lex_order(keys[i], keys[mid as int], key@);
                    }
                }
                low = mid + 1;
            } else if str_lt(key, here.as_str()) {
                assert forall|i: int| mid <= i < count implies lex_lt(key@, #[trigger] keys[i]) by {
                    if mid < i {
                        assert(lex_lt(keys[mid as int], keys[i]));
                        lemma_lex_order(key@, keys[mid as int], keys[i]);
                    }
                }
                high = mid;
            } else {
                proof {
                    self.inner.lemma_wf();
                    lemma_lex_order(keys[mid as int], key@, key@);
                    assert(self.inner@.dom().contains(keys[mid as int]));
                }
                return Some(self.inner.value_at(mid));
            }
        }
        proof {
            self.inner.lemma_wf();
            if keys.contains(key@) {
                let i = choose|i: int| 0 <= i < keys.len() && keys[i] == key@;
                lemma_lex_order(key@, key@, key@);
            }
        }
        None
    }

    /// Number of properties.
    pub fn len(&self) -> (n: usize)
        ensures
            n == self@.dom().len(),
    {
        let n = self.inner.len();
        assert(self@.dom() =~= self.inner@.dom());
        n
    }

    /// The keys in increasing order, and the value of each.
    pub fn into_parts(self) -> (parts: (Vec<String>, Vec<String>))
        ensures
            parts.0.len() == parts.1.len(),
            parts.0.len() == self@.dom().len(),
            forall|i: int, j: int|
                0 <= i < j < parts.0.len() ==> crate::text::lex_lt(
                    (#[trigger] parts.0[i])@,
                    (#[trigger] parts.0[j])@,
                ),
            forall|i: int|
                0 <= i < parts.0.len() ==> self@.contains_key((#[trigger] parts.0[i])@) && self@[parts.0[i]@]
                    == parts.1[i]@,
    {
        let parts = self.inner.into_parts();
        proof {
            self.inner.lemma_wf();
            assert(self@.dom() =~= self.inner@.dom());
            assert forall|i: int, j: int| 0 <= i < j < parts.0.len() implies crate::text::lex_lt(
                (#[trigger] parts.0[i])@,
                (#[trigger] parts.0[j])@,
            ) by {
                assert(self.inner.ranks()[i] == parts.0[i]@);
                assert(self.inner.ranks()[j] == parts.0[j]@);
            }
            assert forall|i: int| 0 <= i < parts.0.len() implies self@.contains_key((#[trigger] parts.0[i])@)
                && self@[parts.0[i]@] == parts.1[i]@ by {
                assert(self.inner.ranks()[i] == parts.0[i]@);
                assert(self.inner@.dom().contains(self.inner.ranks()[i]));
            }
        }
        parts
    }
}

/// The value of the property `key`, or `NotFound` with the key.
pub open spec fn spec_value(properties: Map<Seq<char>, Seq<char>>, key: Seq<char>) -> Result<
    Seq<char>,
    error::PropertyView,
> {
    if properties.contains_key(key) {
        Ok(properties[key])
    } else {
        Err(error::PropertyView::NotFound(key))
    }
}

/// What a typed read of the property `key` gives: the number that its
/// value writes, which is at most `max`; or why there is none.
pub open spec fn spec_extract_unsigned(
    properties: Map<Seq<char>, Seq<char>>,
    key: Seq<char>,
    max: nat,
) -> Result<nat, error::PropertyView> {
    if !properties.contains_key(key) {
        Err(error::PropertyView::NotFound(key))
    } else {
        match spec_parse_unsigned(properties[key], max) {
            Some(n) => Ok(n),
            None => Err(error::PropertyView::InvalidValue(key)),
        }
    }
}

/// The value of the property `key`, or `NotFound` with the key.
pub fn extract_value<'a>(properties: &'a Properties, key: &str) -> (r: Result<&'a String, error::Property>)
    ensures
        match r {
            Ok(value) => properties@.contains_key(key@) && value@ == properties@[key@],
            Err(e) => !properties@.contains_key(key@) && e@ == error::PropertyView::NotFound(key@),
        },
{
    match properties.get(key) {
        None => Err(error::Property::NotFound(key.to_owned())),
        Some(value) => Ok(value),
    }
}

/// The number that the value of the property `key` writes, if it is at
/// most `max`; `NotFound` where there is no such property, `InvalidValue`
/// where its value writes no such number.
pub fn extract_unsigned(properties: &Properties, key: &str, max: u64) -> (r: Result<u64, error::Property>)
    ensures
        match r {
            Ok(n) => spec_extract_unsigned(properties@, key@, max as nat) == Ok::<nat, error::PropertyView>(
                n as nat,
            ),
            Err(e) => spec_extract_unsigned(properties@, key@, max as nat) == Err::<nat, error::PropertyView>(
                e@,
            ),
        },
{
    match properties.get(key) {
        None => Err(error::Property::NotFound(key.to_owned())),
        Some(value) => match parse_unsigned(value.as_str(), max) {
            Some(n) => Ok(n),
            None => Err(error::Property::InvalidValue(key.to_owned())),
        },
    }
}

/// `extract_unsigned` for a `usize`.
pub fn extract_usize(properties: &Properties, key: &str) -> (r: Result<usize, error::Property>)
    ensures
        match r {
            Ok(n) => spec_extract_unsigned(properties@, key@, usize::MAX as nat) == Ok::<
                nat,
                error::PropertyView,
            >(n as nat),
            Err(e) => spec_extract_unsigned(properties@, key@, usize::MAX as nat) == Err::<
                nat,
                error::PropertyView,
            >(e@),
        },
{
    match extract_unsigned(properties, key, usize::MAX as u64) {
        Ok(n) => Ok(n as usize),
        Err(e) => Err(e),
    }
}

/// `extract_unsigned` for a `u32`.
pub fn extract_u32(properties: &Properties, key: &str) -> (r: Result<u32, error::Property>)
    ensures
        match r {
            Ok(n) => spec_extract_unsigned(properties@, key@, u32::MAX as nat) == Ok::<nat, error::PropertyView>(
                n as nat,
            ),
            Err(e) => spec_extract_unsigned(properties@, key@, u32::MAX as nat) == Err::<
                nat,
                error::PropertyView,
            >(e@),
        },
{
    match extract_unsigned(properties, key, u32::MAX as u64) {
        Ok(n) => Ok(n as u32),
        Err(e) => Err(e),
    }
}

/// `extract_unsigned` for a `u16`.
pub fn extract_u16(properties: &Properties, key: &str) -> (r: Result<u16, error::Property>)
    ensures
        match r {
            Ok(n) => spec_extract_unsigned(properties@, key@, u16::MAX as nat) == Ok::<nat, error::PropertyView>(
                n as nat,
            ),
            Err(e) => spec_extract_unsigned(properties@, key@, u16::MAX as nat) == Err::<
                nat,
                error::PropertyView,
            >(e@),
        },
{
    match extract_unsigned(properties, key, u16::MAX as u64) {
        Ok(n) => Ok(n as u16),
        Err(e) => Err(e),
    }
}

/// `extract_unsigned` for a `u8`.
pub fn extract_u8(properties: &Properties, key: &str) -> (r: Result<u8, error::Property>)
    ensures
        match r {
            Ok(n) => spec_extract_unsigned(properties@, key@, u8::MAX as nat) == Ok::<nat, error::PropertyView>(
                n as nat,
            ),
            Err(e) => spec_extract_unsigned(properties@, key@, u8::MAX as nat) == Err::<nat, error::PropertyView>(
                e@,
            ),
        },
{
    match extract_unsigned(properties, key, u8::MAX as u64) {
        Ok(n) => Ok(n as u8),
        Err(e) => Err(e),
    }
}

} // verus!
