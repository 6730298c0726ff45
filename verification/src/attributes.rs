//! rushdown's attribute maps, and the attribute lists (`{#id .class
//! key="value"}`) that its parser reads.

use rushdown::text::Reader;
use vstd::prelude::*;
use vstd::string::StringSliceAdditionalSpecFns;
use vstd::utf8::is_char_boundary;

verus! {

#[verifier::external_type_specification]
#[verifier::external_body]
#[verifier::reject_recursive_types(V)]
pub struct ExStringMap<V>(rushdown::util::StringMap<V>);

#[verifier::external_type_specification]
#[verifier::external_body]
pub struct ExValue(rushdown::text::Value);

/// An attribute value: a span of source bytes, or text of its own.
pub enum AttributeValue {
    /// The source bytes `[start, stop)`.
    Span { start: nat, stop: nat },
    /// Text held by the value itself.
    Text(Seq<char>),
}

/// What an attribute map holds: its names and values, in insertion order.
pub uninterp spec fn attribute_entries(map: rushdown::util::StringMap<rushdown::text::Value>) -> Seq<
    (Seq<char>, AttributeValue),
>;

/// What rushdown's attribute-list parser makes of the line
/// `source[start..stop]` read from its start: where it stops and the entries
/// of the map it returns, or `None` where it finds no attribute list there.
pub uninterp spec fn parsed_attribute_list(source: Seq<char>, start: nat, stop: nat) -> Option<
    (nat, Seq<(Seq<char>, AttributeValue)>),
>;

/// Every span value lies within `[lo, hi]` of `bytes` and starts and ends on
/// character boundaries.
pub open spec fn spans_within(
    entries: Seq<(Seq<char>, AttributeValue)>,
    bytes: Seq<u8>,
    lo: int,
    hi: int,
) -> bool {
    forall|i: int|
        0 <= i < entries.len() ==> match #[trigger] entries[i].1 {
            AttributeValue::Span { start, stop } => {
                &&& lo <= start <= stop <= hi
                &&& is_char_boundary(bytes, start as int)
                &&& is_char_boundary(bytes, stop as int)
            },
            AttributeValue::Text(_) => true,
        }
}

/// The entries after setting `key` to `value`: a present key keeps its place
/// and takes the new value, a new key goes last.
pub open spec fn entries_insert(
    entries: Seq<(Seq<char>, AttributeValue)>,
    key: Seq<char>,
    value: AttributeValue,
) -> Seq<(Seq<char>, AttributeValue)>
    decreases entries.len(),
{
    if entries.len() == 0 {
        seq![(key, value)]
    } else if entries[0].0 == key {
        entries.update(0, (key, value))
    } else {
        seq![entries[0]] + entries_insert(entries.drop_first(), key, value)
    }
}

/// Runs `rushdown::parser::parse_attributes` on a reader over the single line
/// `source[start..stop]`, which starts with `{` and ends on a character
/// boundary, and returns the source position right after the closing `}`
/// with the attributes read.
///
/// Trusted: the outcome is named by `parsed_attribute_list`. That the end
/// lies after `start` (the `{` is read) and not after `stop`, and that every
/// span value lies inside the line on character boundaries, is what the
/// reader's code shows: it never leaves its line, and each span starts after
/// and ends before an ASCII byte or at the line's end.
#[verifier::external_body]
pub(crate) fn parse_attribute_list(source: &str, start: usize, stop: usize) -> (res: Option<
    (usize, rushdown::util::StringMap<rushdown::text::Value>),
>)
    requires
        start < stop <= source.spec_bytes().len(),
        source.spec_bytes()[start as int] == 123,
        is_char_boundary(source.spec_bytes(), stop as int),
    ensures
        res is Some <==> parsed_attribute_list(source@, start as nat, stop as nat) is Some,
        res matches Some((end, map)) ==> {
            &&& parsed_attribute_list(source@, start as nat, stop as nat) == Some(
                (end as nat, attribute_entries(map)),
            )
            &&& start < end <= stop
            &&& spans_within(attribute_entries(map), source.spec_bytes(), start as int, stop as int)
        },
{
    let block = [rushdown::text::Segment::new(start, stop)];
    let mut reader = rushdown::text::BlockReader::new(source, &block);
    let attributes = rushdown::parser::parse_attributes(&mut reader)?;
    Some((reader.position().1.start(), attributes))
}

/// Calls `rushdown::util::StringMap::new`: an empty map.
#[verifier::external_body]
pub(crate) fn new_attribute_map() -> (map: rushdown::util::StringMap<rushdown::text::Value>)
    ensures
        attribute_entries(map) == Seq::<(Seq<char>, AttributeValue)>::empty(),
{
    rushdown::util::StringMap::new()
}

/// Calls `rushdown::util::StringMap::insert` with the span value
/// `[start, stop)`: a present key keeps its place and takes the new value, a
/// new key goes last.
#[verifier::external_body]
pub(crate) fn insert_span_attribute(
    map: &mut rushdown::util::StringMap<rushdown::text::Value>,
    key: &str,
    start: usize,
    stop: usize,
)
    ensures
        attribute_entries(*final(map)) == entries_insert(
            attribute_entries(*old(map)),
            key@,
            AttributeValue::Span { start: start as nat, stop: stop as nat },
        ),
{
    map.insert(key, rushdown::text::Value::from((start, stop)));
}

} // verus!
