//! Where the members of an archive lie, and what each property file is
//! about.
use super::channel_data::{spec_channel_data, ChannelData, ChannelDataView};
use crate::dataset::v2_0::properties::index::{spec_segment_count, IndexData};
use super::segment_data::{spec_channel_list, SegmentData, SegmentProperties};
use crate::archive::{spec_member, Archive, Member};
use crate::dataset::properties::Properties;
use crate::qi_map::error::{spec_cause, QueryError, QueryErrorView};
use crate::qi_map::metadata::MetadataIndex;
use crate::qi_map::{IndexId, SegmentId};
use crate::text::{
    chars_of, decimal_digits, decimal_value, find, find_in, is_decimal, is_digit, lemma_decimal_digits_plain,
    lemma_decimal_roundtrip, lemma_find, lemma_plain_digits_are_decimal_digits, parse_unsigned, push_decimal,
    str_eq, text_of,
};
use vstd::prelude::*;
use vstd::string::StringExecFns;

verus! {

pub const INDEX_DIR: &'static str = "index";

pub const SEGMENT_DIR: &'static str = "segments";

pub const SHARED_DATA_DIR: &'static str = "shared-data";

pub const DATASET_PROPERTIES_FILE: &'static str = "header.properties";

pub const INDEX_PROPERTIES_FILE: &'static str = "header.properties";

pub const SEGMENT_PROPERTIES_FILE: &'static str = "segment-header.properties";

pub const SHARED_DATA_PROPERTIES_FILE: &'static str = "header.properties";

pub const PROPERTIES_KEY_SEGMENT_CHANNELS_LIST: &'static str = "channels.list";

/// `index/{index}/header.properties`
pub open spec fn spec_index_properties_path(index: nat) -> Seq<char> {
    "index/"@ + decimal_digits(index) + "/header.properties"@
}

/// `index/{index}/segments/{segment}`
pub open spec fn spec_index_segment_path(index: nat, segment: nat) -> Seq<char> {
    "index/"@ + decimal_digits(index) + "/segments/"@ + decimal_digits(segment)
}

/// `index/{index}/segments/{segment}/segment-header.properties`
pub open spec fn spec_index_segment_properties_path(index: nat, segment: nat) -> Seq<char> {
    spec_index_segment_path(index, segment) + "/segment-header.properties"@
}

/// `index/{index}/segments/{segment}/{file}`
pub open spec fn spec_data_file_path(index: nat, segment: nat, file: Seq<char>) -> Seq<char> {
    spec_index_segment_path(index, segment) + "/"@ + file
}

/// The path of the dataset's property file.
pub fn properties_path() -> (path: String)
    ensures
        path@ == DATASET_PROPERTIES_FILE@,
{
    String::from_str(DATASET_PROPERTIES_FILE)
}

/// The path of the property file of the position `index`.
pub fn index_properties_path(index: IndexId) -> (path: String)
    ensures
        path@ == spec_index_properties_path(index as nat),
{
    let mut path = String::from_str("index/");
    push_decimal(&mut path, index as u64);
    path.append("/header.properties");
    path
}

/// The path of the directory of the segment `segment` at the position
/// `index`.
pub fn index_segment_path(index: IndexId, segment: SegmentId) -> (path: String)
    ensures
        path@ == spec_index_segment_path(index as nat, segment as nat),
{
    let mut path = String::from_str("index/");
    push_decimal(&mut path, index as u64);
    path.append("/segments/");
    push_decimal(&mut path, segment as u64);
    path
}

/// The path of the property file of the segment `segment` at the position
/// `index`.
pub fn index_segment_properties_path(index: IndexId, segment: SegmentId) -> (path: String)
    ensures
        path@ == spec_index_segment_properties_path(index as nat, segment as nat),
{
    let mut path = index_segment_path(index, segment);
    path.append("/segment-header.properties");
    path
}

/// The path of the data file `file` of the segment `segment` at the
/// position `index`.
pub fn data_file_path(index: IndexId, segment: SegmentId, file: &str) -> (path: String)
    ensures
        path@ == spec_data_file_path(index as nat, segment as nat, file@),
{
    let mut path = index_segment_path(index, segment);
    path.append("/");
    path.append(file);
    path
}

/// The path of the property file of the shared data.
pub fn shared_data_properties_path() -> (path: String)
    ensures
        path@ == "shared-data/header.properties"@,
{
    String::from_str("shared-data/header.properties")
}

/// The number that `digits` write, where they are its decimal digits
/// without a sign or a leading zero and it is at most `max`.
pub open spec fn spec_plain_number(digits: Seq<char>, max: nat) -> Option<nat> {
    if is_decimal(digits) && (digits.len() == 1 || digits[0] != '0') && decimal_value(digits) <= max {
        Some(decimal_value(digits))
    } else {
        None
    }
}

/// What the property file at the path `name` is about: the dataset for
/// `header.properties`, the shared data for `shared-data/header.properties`,
/// a position for `index/{index}/header.properties`, a segment for
/// `index/{index}/segments/{segment}/segment-header.properties`, where the
/// numbers are written without a sign or a leading zero. `None` for any
/// other path.
pub open spec fn spec_scope(name: Seq<char>) -> Option<MetadataIndex> {
    if name == "header.properties"@ {
        Some(MetadataIndex::Dataset)
    } else if name == "shared-data/header.properties"@ {
        Some(MetadataIndex::SharedData)
    } else if name.len() < 6 || name.take(6) != "index/"@ {
        None
    } else {
        let rest = name.skip(6);
        let end = find(rest, '/');
        match spec_plain_number(rest.take(end), usize::MAX as nat) {
            None => None,
            Some(index) => {
                let tail = rest.skip(end);
                if tail == "/header.properties"@ {
                    Some(MetadataIndex::Index(index as usize))
                } else if tail.len() < 10 || tail.take(10) != "/segments/"@ {
                    None
                } else {
                    let rest = tail.skip(10);
                    let end = find(rest, '/');
                    match spec_plain_number(rest.take(end), u8::MAX as nat) {
                        None => None,
                        Some(segment) => if rest.skip(end) == "/segment-header.properties"@ {
                            Some(MetadataIndex::Segment { index: index as usize, segment: segment as u8 })
                        } else {
                            None
                        },
                    }
                }
            },
        }
    }
}

/// A number's decimal digits are read back as that number.
pub proof fn lemma_plain_number_of_digits(n: nat, max: nat)
    requires
        n <= max,
    ensures
        spec_plain_number(decimal_digits(n), max) == Some(n),
{
    lemma_decimal_roundtrip(n, max);
    lemma_decimal_digits_plain(n);
}

/// The path of the property file of a position is told to be about that
/// position.
pub proof fn lemma_scope_of_index_path(index: nat)
    requires
        index <= usize::MAX,
    ensures
        spec_scope(spec_index_properties_path(index)) == Some(MetadataIndex::Index(index as usize)),
{
    reveal_strlit("header.properties");
    reveal_strlit("shared-data/header.properties");
    reveal_strlit("index/");
    reveal_strlit("/header.properties");
    reveal_strlit("/segments/");
    let digits = decimal_digits(index);
    let name = spec_index_properties_path(index);
    lemma_plain_number_of_digits(index, usize::MAX as nat);
    lemma_decimal_digits_plain(index);
    assert(name[0] == 'i');
    assert(name.take(6) =~= "index/"@);
    let rest = name.skip(6);
    assert(rest =~= digits + "/header.properties"@);
    assert forall|i: int| 0 <= i < digits.len() implies rest[i] != '/' by {
        assert(is_digit(digits[i]));
    }
    lemma_find(rest, '/', digits.len() as int);
    assert(rest.take(digits.len() as int) =~= digits);
    assert(rest.skip(digits.len() as int) =~= "/header.properties"@);
}

/// The path of the property file of a segment is told to be about that
/// segment.
pub proof fn lemma_scope_of_segment_path(index: nat, segment: nat)
    requires
        index <= usize::MAX,
        segment <= u8::MAX,
    ensures
        spec_scope(spec_index_segment_properties_path(index, segment)) == Some(
            MetadataIndex::Segment { index: index as usize, segment: segment as u8 },
        ),
{
    reveal_strlit("header.properties");
    reveal_strlit("shared-data/header.properties");
    reveal_strlit("index/");
    reveal_strlit("/header.properties");
    reveal_strlit("/segments/");
    reveal_strlit("/segment-header.properties");
    let digits = decimal_digits(index);
    let more = decimal_digits(segment);
    let name = spec_index_segment_properties_path(index, segment);
    lemma_plain_number_of_digits(index, usize::MAX as nat);
    lemma_plain_number_of_digits(segment, u8::MAX as nat);
    lemma_decimal_digits_plain(index);
    lemma_decimal_digits_plain(segment);
    assert(name[0] == 'i');
    assert(name.take(6) =~= "index/"@);
    let rest = name.skip(6);
    let tail = "/segments/"@ + more + "/segment-header.properties"@;
    assert(rest =~= digits + tail);
    assert forall|i: int| 0 <= i < digits.len() implies rest[i] != '/' by {
        assert(is_digit(digits[i]));
    }
    assert(rest[digits.len() as int] == tail[0]);
    lemma_find(rest, '/', digits.len() as int);
    assert(rest.take(digits.len() as int) =~= digits);
    assert(rest.skip(digits.len() as int) =~= tail);
    assert(tail[1] == 's');
    assert(tail != "/header.properties"@);
    assert(tail.take(10) =~= "/segments/"@);
    let last = tail.skip(10);
    assert(last =~= more + "/segment-header.properties"@);
    assert forall|i: int| 0 <= i < more.len() implies last[i] != '/' by {
        assert(is_digit(more[i]));
    }
    lemma_find(last, '/', more.len() as int);
    assert(last.take(more.len() as int) =~= more);
    assert(last.skip(more.len() as int) =~= "/segment-header.properties"@);
}

/// A path that is told to be about a position or a segment is the path of
/// that position's or that segment's property file, and the two other
/// scopes have one path each.
pub proof fn lemma_scope_is_of_path(name: Seq<char>)
    ensures
        match spec_scope(name) {
            None => true,
            Some(MetadataIndex::Dataset) => name == "header.properties"@,
            Some(MetadataIndex::SharedData) => name == "shared-data/header.properties"@,
            Some(MetadataIndex::Index(index)) => name == spec_index_properties_path(index as nat),
            Some(MetadataIndex::Segment { index, segment }) => name == spec_index_segment_properties_path(
                index as nat,
                segment as nat,
            ),
        },
{
    if name != "header.properties"@ && name != "shared-data/header.properties"@ && name.len() >= 6 && name.take(6)
        == "index/"@ {
        let rest = name.skip(6);
        let end = find(rest, '/');
        crate::text::lemma_find_is_first(rest, '/');
        let digits = rest.take(end);
        if spec_plain_number(digits, usize::MAX as nat) is Some {
            lemma_plain_digits_are_decimal_digits(digits);
            let index = decimal_value(digits);
            let tail = rest.skip(end);
            assert(name =~= name.take(6) + rest);
            assert(rest =~= digits + tail);
            if tail == "/header.properties"@ {
                assert(name =~= spec_index_properties_path(index));
            } else if tail.len() >= 10 && tail.take(10) == "/segments/"@ {
                let last = tail.skip(10);
                let stop = find(last, '/');
                crate::text::lemma_find_is_first(last, '/');
                let more = last.take(stop);
                if spec_plain_number(more, u8::MAX as nat) is Some {
                    lemma_plain_digits_are_decimal_digits(more);
                    let segment = decimal_value(more);
                    assert(tail =~= tail.take(10) + last);
                    assert(last =~= more + last.skip(stop));
                    if last.skip(stop) == "/segment-header.properties"@ {
                        assert(name =~= spec_index_segment_properties_path(index, segment));
                    }
                }
            }
        }
    }
}

/// Whether `chars[from..to]` holds the characters of `word`.
fn holds_word(chars: &Vec<char>, from: usize, to: usize, word: &str) -> (r: bool)
    requires
        from <= to <= chars.len(),
    ensures
        r == (chars@.subrange(from as int, to as int) == word@),
{
    let part = text_of(chars, from, to);
    str_eq(part.as_str(), word)
}

/// Reads `chars[from..to]` as a number without a sign or a leading zero.
fn plain_number(chars: &Vec<char>, from: usize, to: usize, max: u64) -> (r: Option<u64>)
    requires
        from <= to <= chars.len(),
    ensures
        match r {
            Some(n) => spec_plain_number(chars@.subrange(from as int, to as int), max as nat) == Some(n as nat),
            None => spec_plain_number(chars@.subrange(from as int, to as int), max as nat) is None,
        },
{
    let ghost digits = chars@.subrange(from as int, to as int);
    if from == to {
        return None;
    }
    assert(digits[0] == chars@[from as int]);
    if chars[from] == '+' {
        assert(!crate::text::is_digit(digits[0]));
        return None;
    }
    if chars[from] == '0' && to - from > 1 {
        return None;
    }
    let part = text_of(chars, from, to);
    parse_unsigned(part.as_str(), max)
}

/// What the property file at the path `filename` is about, if it is a
/// property file of a dataset.
pub fn metadata_index_from_file_path(filename: &str) -> (r: Option<MetadataIndex>)
    ensures
        r == spec_scope(filename@),
{
    if str_eq(filename, "header.properties") {
        return Some(MetadataIndex::Dataset);
    }
    if str_eq(filename, "shared-data/header.properties") {
        return Some(MetadataIndex::SharedData);
    }
    let chars = chars_of(filename);
    let n = chars.len();
    if n < 6 {
        return None;
    }
    assert(chars@.take(6) =~= chars@.subrange(0, 6));
    if !holds_word(&chars, 0, 6, "index/") {
        return None;
    }
    let ghost rest = chars@.skip(6);
    assert(rest =~= chars@.subrange(6, n as int));
    let end = find_in(&chars, 6, n, '/');
    assert(rest.take(end - 6) =~= chars@.subrange(6, end as int));
    assert(rest.skip(end - 6) =~= chars@.subrange(end as int, n as int));
    let index = match plain_number(&chars, 6, end, usize::MAX as u64) {
        None => {
            return None;
        },
        Some(index) => index as usize,
    };
    if holds_word(&chars, end, n, "/header.properties") {
        return Some(MetadataIndex::Index(index));
    }
    let ghost tail = chars@.subrange(end as int, n as int);
    if n - end < 10 {
        return None;
    }
    assert(tail.take(10) =~= chars@.subrange(end as int, end + 10));
    if !holds_word(&chars, end, end + 10, "/segments/") {
        return None;
    }
    let start = end + 10;
    let ghost rest = tail.skip(10);
    assert(rest =~= chars@.subrange(start as int, n as int));
    let end = find_in(&chars, start, n, '/');
    assert(rest.take(end - start) =~= chars@.subrange(start as int, end as int));
    assert(rest.skip(end - start) =~= chars@.subrange(end as int, n as int));
    let segment = match plain_number(&chars, start, end, u8::MAX as u64) {
        None => {
            return None;
        },
        Some(segment) => segment as u8,
    };
    if holds_word(&chars, end, n, "/segment-header.properties") {
        Some(MetadataIndex::Segment { index, segment })
    } else {
        None
    }
}

} // verus!

verus! {

/// Reads the member at `path` as a property file. A member that cannot be
/// read is an archive error; one that is no property file has an invalid
/// format, with `cause` as the reason.
pub open spec fn spec_properties_at(files: Map<Seq<char>, Seq<u8>>, path: Seq<char>, cause: Seq<char>) -> Result<
    Map<Seq<char>, Seq<char>>,
    QueryErrorView,
> {
    match spec_member(files, path) {
        Member::Missing => Err(QueryErrorView::Zip { path }),
        Member::Unreadable => Err(QueryErrorView::InvalidFormat { path, cause }),
        Member::Found(found) => Ok(found),
    }
}

/// Reads the member at `path` as a property file.
pub fn properties_at(archive: &mut Archive, path: String, cause: &str) -> (r: Result<Properties, QueryError>)
    ensures
        final(archive).files() == old(archive).files(),
        final(archive).names() == old(archive).names(),
        match spec_properties_at(old(archive).files(), path@, cause@) {
            Ok(found) => r matches Ok(properties) && properties@ == found,
            Err(e) => r matches Err(error) && error@ == e,
        },
{
    match archive.read_properties(path.as_str()) {
        Err(error) => Err(QueryError::Zip { path, error }),
        Ok(None) => Err(QueryError::InvalidFormat { path, cause: cause.to_owned() }),
        Ok(Some(properties)) => Ok(properties),
    }
}

/// The number of segments that the property file of the position `index`
/// declares.
pub open spec fn spec_index_data(files: Map<Seq<char>, Seq<u8>>, index: nat) -> Result<nat, QueryErrorView> {
    let path = spec_index_properties_path(index);
    match spec_properties_at(files, path, "invalid property file"@) {
        Err(e) => Err(e),
        Ok(found) => match spec_segment_count(found) {
            Ok(count) => Ok(count),
            Err(e) => Err(QueryErrorView::InvalidFormat { path, cause: spec_cause(e) }),
        },
    }
}

/// Reads the property file of the position `index`.
pub fn index_data(archive: &mut Archive, index: IndexId) -> (r: Result<IndexData, QueryError>)
    ensures
        final(archive).files() == old(archive).files(),
        final(archive).names() == old(archive).names(),
        match spec_index_data(old(archive).files(), index as nat) {
            Ok(count) => r matches Ok(data) && data.spec_count() == count,
            Err(e) => r matches Err(error) && error@ == e,
        },
{
    let properties = match properties_at(archive, index_properties_path(index), "invalid property file") {
        Ok(properties) => properties,
        Err(error) => {
            return Err(error);
        },
    };
    match IndexData::from_properties(&properties) {
        Ok(data) => Ok(data),
        Err(e) => Err(QueryError::invalid_property(index_properties_path(index), &e)),
    }
}

/// The properties of the segment `segment` at the position `index`.
pub open spec fn spec_segment_properties(files: Map<Seq<char>, Seq<u8>>, index: nat, segment: nat) -> Result<
    Map<Seq<char>, Seq<char>>,
    QueryErrorView,
> {
    spec_properties_at(
        files,
        spec_index_segment_properties_path(index, segment),
        "file could not be read as properties"@,
    )
}

/// Reads the property file of the segment `segment` at the position
/// `index`.
pub fn segment_properties(archive: &mut Archive, index: IndexId, segment: SegmentId) -> (r: Result<
    SegmentProperties,
    QueryError,
>)
    ensures
        final(archive).files() == old(archive).files(),
        final(archive).names() == old(archive).names(),
        match spec_segment_properties(old(archive).files(), index as nat, segment as nat) {
            Ok(found) => r matches Ok(properties) && properties.inner@ == found,
            Err(e) => r matches Err(error) && error@ == e,
        },
{
    match properties_at(
        archive,
        index_segment_properties_path(index, segment),
        "file could not be read as properties",
    ) {
        Ok(inner) => Ok(SegmentProperties { inner }),
        Err(error) => Err(error),
    }
}

/// The channels that the properties of the segment `segment` at the
/// position `index` declare.
pub open spec fn spec_segment_data(properties: Map<Seq<char>, Seq<char>>, index: nat, segment: nat) -> Result<
    Seq<Seq<char>>,
    QueryErrorView,
> {
    match spec_channel_list(properties) {
        Ok(channels) => Ok(channels),
        Err(e) => Err(
            QueryErrorView::InvalidFormat {
                path: spec_index_segment_properties_path(index, segment),
                cause: spec_cause(e),
            },
        ),
    }
}

/// # Notes
/// + `index` and `segment` only used for error reporting.
pub fn segment_data(properties: &SegmentProperties, index: IndexId, segment: SegmentId) -> (r: Result<
    SegmentData,
    QueryError,
>)
    ensures
        match spec_segment_data(properties.inner@, index as nat, segment as nat) {
            Ok(channels) => r matches Ok(data) && data.spec_channels() == channels,
            Err(e) => r matches Err(error) && error@ == e,
        },
{
    match SegmentData::from(properties) {
        Ok(data) => Ok(data),
        Err(e) => Err(QueryError::invalid_property(index_segment_properties_path(index, segment), &e)),
    }
}

/// What the properties of the segment `segment` at the position `index`
/// say of `channel`.
pub open spec fn spec_channel(properties: Map<Seq<char>, Seq<char>>, channel: Seq<char>, index: nat, segment: nat) -> Result<
    ChannelDataView,
    QueryErrorView,
> {
    match spec_channel_data(properties, channel) {
        Ok(data) => Ok(data),
        Err(e) => Err(
            QueryErrorView::InvalidFormat {
                path: spec_index_segment_properties_path(index, segment),
                cause: spec_cause(e),
            },
        ),
    }
}

/// # Notes
/// + `index` and `segment` only used for error reporting.
pub fn channel_data(segment_properties: &SegmentProperties, channel: &str, index: IndexId, segment: SegmentId) -> (r:
    Result<ChannelData, QueryError>)
    ensures
        match spec_channel(segment_properties.inner@, channel@, index as nat, segment as nat) {
            Ok(data) => r matches Ok(found) && found@ == data,
            Err(e) => r matches Err(error) && error@ == e,
        },
{
    match ChannelData::from(segment_properties, channel) {
        Ok(data) => Ok(data),
        Err(e) => Err(QueryError::invalid_property(index_segment_properties_path(index, segment), &e)),
    }
}

} // verus!
