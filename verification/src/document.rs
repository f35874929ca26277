//! Structured documents exchanged with plugins and observers.
//!
//! Documents are values of the `bson` crate, built and read through the small
//! set of trusted functions in this module. Verification sees a value through
//! [`node_of`] and a document through [`entries_of`], which name the tree that
//! is held; how a document is laid out in bytes is left to the crate and only
//! named, by [`encoding_of`] and [`decoding_of`].
//!
//! The crate's parser replaces text that is not UTF-8. In a piece of code
//! with scope it looks for the scope behind the replaced code, and so beyond
//! the element where the code was not UTF-8. [`scoped_code_is_text`] says,
//! over the crate's own walk of the elements, named by [`layout_of`], which
//! bytes hold no such code; only those are handed to the parser.

use crate::framing::le_value;
use vstd::utf8::valid_utf8;
use vstd::prelude::*;

verus! {

#[verifier::external_type_specification]
#[verifier::external_body]
pub struct ExBson(bson::Bson);

#[verifier::external_type_specification]
#[verifier::external_body]
pub struct ExDocument(bson::Document);

/// The tree held by a document value. The kinds of value that this library
/// builds or reads are spelled out; any other value stands for itself. The
/// fields of a document carry pairwise different keys.
pub enum Node {
    Boolean(bool),
    Int32(i32),
    Text(Seq<char>),
    /// Binary data of the generic subtype.
    Binary(Seq<u8>),
    /// Milliseconds since the Unix epoch.
    DateTime(i64),
    Array(Seq<Node>),
    /// Fields in insertion order.
    Document(Seq<(Seq<char>, Node)>),
    Other(bson::Bson),
}

/// The fields of a document as a sequence of named nodes.
pub type Entries = Seq<(Seq<char>, Node)>;

/// The tree that a value holds.
pub uninterp spec fn node_of(value: bson::Bson) -> Node;

/// The fields of a document, in insertion order.
pub uninterp spec fn entries_of(document: bson::Document) -> Seq<(Seq<char>, Node)>;

/// The bytes that a document of the given fields serialises to, where it can
/// be serialised.
pub uninterp spec fn encoding_of(entries: Seq<(Seq<char>, Node)>) -> Option<Seq<u8>>;

/// The fields of the document that a byte string parses to, where it parses;
/// invalid UTF-8 inside strings is replaced rather than rejected.
pub uninterp spec fn decoding_of(bytes: Seq<u8>) -> Option<Seq<(Seq<char>, Node)>>;

/// The elements of the document that a byte string holds, as the crate walks
/// them: for each, in order, its kind, the length of its key in bytes and the
/// length of its value in bytes. The walk ends with the document or at its
/// first error; there are no elements where the bytes are no document of
/// exactly their length.
pub uninterp spec fn layout_of(bytes: Seq<u8>) -> Seq<(u8, usize, usize)>;

/// The kind of an embedded document.
pub const EMBEDDED_DOCUMENT: u8 = 0x03;

/// The kind of an array, which is laid out as a document.
pub const ARRAY: u8 = 0x04;

/// The kind of a piece of code with the document of its scope.
pub const SCOPED_CODE: u8 = 0x0F;

/// The least length of the value of a code with scope: its own length, the
/// length of the code, the zero that closes the code, and an empty scope.
pub const MIN_SCOPED_CODE: usize = 14;

/// The text of the code in the value of a code with scope, and the offset at
/// which the scope starts. The value is its own length in four bytes, the
/// length of the code with its closing zero in four bytes, the code, a zero,
/// and the scope. `None` where the value is too short or does not delimit its
/// code.
pub open spec fn scoped_code_text(value: Seq<u8>) -> Option<(Seq<u8>, int)> {
    if value.len() < MIN_SCOPED_CODE {
        None
    } else {
        let length = le_value(value[4], value[5], value[6], value[7]);
        if 1 <= length < 0x8000_0000 && length + 8 <= value.len() && value[length + 7] == 0 {
            Some((value.subrange(8, length + 7), length + 8))
        } else {
            None
        }
    }
}

/// Whether, among the elements from number `from` on, the first of which
/// starts at the offset `at`, every code with scope that delimits its code
/// has UTF-8 text as its code, at any depth of embedded documents, arrays and
/// scopes. An element is its kind, its key with a closing zero, and its value.
pub open spec fn elements_hold_text_code(
    bytes: Seq<u8>,
    layout: Seq<(u8, usize, usize)>,
    from: int,
    at: int,
) -> bool
    decreases bytes.len(), layout.len() - from,
{
    if from < 0 || from >= layout.len() {
        true
    } else {
        let kind = layout[from].0;
        let start = at + 1 + layout[from].1 + 1;
        let end = start + layout[from].2;
        if at < 0 || end > bytes.len() {
            false
        } else {
            let value = bytes.subrange(start, end);
            let this = if kind == EMBEDDED_DOCUMENT || kind == ARRAY {
                elements_hold_text_code(value, layout_of(value), 0, 4)
            } else if kind == SCOPED_CODE {
                match scoped_code_text(value) {
                    Some((text, scope)) => {
                        let inner = value.subrange(scope, value.len() as int);
                        valid_utf8(text) && elements_hold_text_code(inner, layout_of(inner), 0, 4)
                    },
                    None => true,
                }
            } else {
                true
            };
            this && elements_hold_text_code(bytes, layout, from + 1, end)
        }
    }
}

/// The document at the front of a payload: the bytes up to the length that
/// the first four of them declare. The whole payload where it is shorter
/// than that.
pub open spec fn declared_document(payload: Seq<u8>) -> Seq<u8> {
    if payload.len() >= 4 && le_value(payload[0], payload[1], payload[2], payload[3])
        <= payload.len() {
        payload.subrange(0, le_value(payload[0], payload[1], payload[2], payload[3]))
    } else {
        payload
    }
}

/// Whether every code with scope that the walk of a payload's document
/// meets, at any depth, has UTF-8 text as its code.
pub open spec fn scoped_code_is_text(payload: Seq<u8>) -> bool {
    elements_hold_text_code(
        declared_document(payload),
        layout_of(declared_document(payload)),
        0,
        4,
    )
}

/// Whether some field carries `key`.
pub open spec fn has_key(entries: Entries, key: Seq<char>) -> bool {
    exists|i: int| 0 <= i < entries.len() && (#[trigger] entries[i]).0 == key
}

/// The node stored under `key`, if any.
pub open spec fn field(entries: Entries, key: Seq<char>) -> Option<Node>
    decreases entries.len(),
{
    if entries.len() == 0 {
        None
    } else if entries[0].0 == key {
        Some(entries[0].1)
    } else {
        field(entries.drop_first(), key)
    }
}

/// The fields after storing `node` under `key`: an existing field keeps its
/// place and takes the new node, a new field goes to the end.
pub open spec fn put(entries: Entries, key: Seq<char>, node: Node) -> Entries {
    if has_key(entries, key) {
        entries.map_values(
            |e: (Seq<char>, Node)|
                if e.0 == key {
                    (key, node)
                } else {
                    e
                },
        )
    } else {
        entries.push((key, node))
    }
}

/// Storing under a key that no field carries appends the field.
pub proof fn lemma_put_new(entries: Entries, key: Seq<char>, node: Node)
    requires
        forall|i: int| 0 <= i < entries.len() ==> (#[trigger] entries[i]).0 != key,
    ensures
        put(entries, key, node) == entries.push((key, node)),
{
}

/// The nodes of a sequence of values.
pub open spec fn nodes_of(values: Seq<bson::Bson>) -> Seq<Node> {
    values.map_values(|v: bson::Bson| node_of(v))
}

/// The 32-bit integer that a node holds, if it is one.
pub open spec fn as_int32(node: Node) -> Option<i32> {
    match node {
        Node::Int32(v) => Some(v),
        _ => None,
    }
}

/// `Document::new`: a document without fields.
#[verifier::external_body]
pub(crate) fn new_document() -> (document: bson::Document)
    ensures
        entries_of(document) == Seq::<(Seq<char>, Node)>::empty(),
{
    bson::Document::new()
}

/// `Document::insert`: stores `value` under `key`, replacing in place a value
/// already stored under that key and appending otherwise.
#[verifier::external_body]
pub(crate) fn insert_field(document: &mut bson::Document, key: &str, value: bson::Bson)
    ensures
        entries_of(*final(document)) == put(entries_of(*old(document)), key@, node_of(value)),
{
    document.insert(key, value);
}

/// `Document::get_bool`: the boolean stored under `key`; `None` where the
/// key is absent or holds another kind of value.
#[verifier::external_body]
pub(crate) fn bool_field(document: &bson::Document, key: &str) -> (found: Option<bool>)
    ensures
        found == match field(entries_of(*document), key@) {
            Some(Node::Boolean(b)) => Some(b),
            _ => None::<bool>,
        },
{
    document.get_bool(key).ok()
}

/// `Document::get_document`: the embedded document stored under `key`; `None`
/// where the key is absent or holds another kind of value.
#[verifier::external_body]
pub(crate) fn document_field<'a>(document: &'a bson::Document, key: &str) -> (found: Option<
    &'a bson::Document,
>)
    ensures
        match field(entries_of(*document), key@) {
            Some(Node::Document(inner)) => found.is_some() && entries_of(*found.unwrap()) == inner,
            _ => found.is_none(),
        },
{
    document.get_document(key).ok()
}

/// `Document::iter` with `Bson::as_i32` on each value: the fields in order,
/// each key with the 32-bit integer stored under it, or `None` where the
/// value is of another kind.
#[verifier::external_body]
pub(crate) fn int32_fields(document: &bson::Document) -> (fields: Vec<(String, Option<i32>)>)
    ensures
        fields.len() == entries_of(*document).len(),
        forall|i: int|
            0 <= i < fields.len() ==> {
                &&& (#[trigger] fields[i]).0@ == entries_of(*document)[i].0
                &&& fields[i].1 == as_int32(entries_of(*document)[i].1)
            },
{
    document.iter().map(|(key, value)| (key.clone(), value.as_i32())).collect()
}

/// `Bson::DateTime` over `DateTime::from_millis`: the date value of the given
/// number of milliseconds since the Unix epoch.
#[verifier::external_body]
pub(crate) fn datetime_value(millis: i64) -> (value: bson::Bson)
    ensures
        node_of(value) == Node::DateTime(millis),
{
    bson::Bson::DateTime(bson::DateTime::from_millis(millis))
}

/// `Bson::Binary` with the generic subtype: a binary value of the given bytes.
#[verifier::external_body]
pub(crate) fn binary_value(bytes: Vec<u8>) -> (value: bson::Bson)
    ensures
        node_of(value) == Node::Binary(bytes@),
{
    bson::Bson::Binary(bson::Binary { subtype: bson::spec::BinarySubtype::Generic, bytes })
}

/// `Bson::String`: a string value of the given text.
#[verifier::external_body]
pub(crate) fn text_value(text: String) -> (value: bson::Bson)
    ensures
        node_of(value) == Node::Text(text@),
{
    bson::Bson::String(text)
}

/// `Bson::Array`: an array value of the given items, in order.
#[verifier::external_body]
pub(crate) fn array_value(items: Vec<bson::Bson>) -> (value: bson::Bson)
    ensures
        node_of(value) == Node::Array(nodes_of(items@)),
{
    bson::Bson::Array(items)
}

/// `Bson::Document`: the value that embeds a document.
#[verifier::external_body]
pub(crate) fn document_value(document: bson::Document) -> (value: bson::Bson)
    ensures
        node_of(value) == Node::Document(entries_of(document)),
{
    bson::Bson::Document(document)
}

/// `Bson::clone`: a copy equal to the value.
#[verifier::external_body]
pub(crate) fn clone_value(value: &bson::Bson) -> (copy: bson::Bson)
    ensures
        copy == *value,
{
    value.clone()
}

/// `Document::to_writer` into a fresh buffer: the serialised document, or
/// `None` where the crate reports that it cannot be serialised.
#[verifier::external_body]
pub(crate) fn encode_document(document: &bson::Document) -> (bytes: Option<Vec<u8>>)
    ensures
        match bytes {
            Some(b) => encoding_of(entries_of(*document)) == Some(b@),
            None => encoding_of(entries_of(*document)).is_none(),
        },
{
    let mut buffer = Vec::new();
    match document.to_writer(&mut buffer) {
        Ok(()) => Some(buffer),
        Err(_) => None,
    }
}

/// `RawDocument::iter_elements` on the bytes from `start` up to `end`, after
/// `RawDocument::from_bytes`: for each element that the walk yields before it
/// ends or meets an error, in order, its kind, the length of its key and the
/// length of its value; none where the bytes are no document of exactly that
/// length.
#[verifier::external_body]
pub(crate) fn element_layout(bytes: &Vec<u8>, start: usize, end: usize) -> (layout: Vec<
    (u8, usize, usize),
>)
    requires
        start <= end <= bytes.len(),
    ensures
        layout@ == layout_of(bytes@.subrange(start as int, end as int)),
{
    match bson::RawDocument::from_bytes(&bytes[start..end]) {
        Ok(document) => document
            .iter_elements()
            .map_while(|e| e.ok())
            .map(|e| (e.element_type() as u8, e.key().len(), e.len()))
            .collect(),
        Err(_) => Vec::new(),
    }
}

/// `std::str::from_utf8` on the bytes from `start` up to `end`: whether they
/// are UTF-8.
#[verifier::external_body]
pub(crate) fn is_utf8(bytes: &Vec<u8>, start: usize, end: usize) -> (valid: bool)
    requires
        start <= end <= bytes.len(),
    ensures
        valid == valid_utf8(bytes@.subrange(start as int, end as int)),
{
    std::str::from_utf8(&bytes[start..end]).is_ok()
}

/// `Document::from_reader_utf8_lossy` on a byte string: the parsed document,
/// or `None` where the crate rejects the bytes. The crate replaces invalid
/// text in a code with scope before it measures where the scope starts, and
/// may then read beyond the element; bytes in which the walk meets a code
/// with scope whose code is not UTF-8 are therefore left out.
#[verifier::external_body]
#[allow(deprecated)]
pub(crate) fn decode_document(bytes: &Vec<u8>) -> (document: Option<bson::Document>)
    requires
        scoped_code_is_text(bytes@),
    ensures
        match document {
            Some(d) => decoding_of(bytes@) == Some(entries_of(d)),
            None => decoding_of(bytes@).is_none(),
        },
{
    bson::Document::from_reader_utf8_lossy(bytes.as_slice()).ok()
}

} // verus!
