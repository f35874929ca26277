//! Documents as messages on the wire, and what can go wrong in a
//! conversation with a plugin.

use crate::document::{
    declared_document, decode_document, decoding_of, element_layout, elements_hold_text_code,
    encode_document, encoding_of, entries_of, is_utf8, layout_of, scoped_code_is_text,
    scoped_code_text, Entries, ARRAY, EMBEDDED_DOCUMENT, MIN_SCOPED_CODE, SCOPED_CODE,
};
use crate::framing::{decode_length, frame, framed, lemma_framing_round_trip, unframed};
use vstd::prelude::*;
use vstd::utf8::valid_utf8;

verus! {

/// A violation of the protocol. Each one ends the connection it occurs on.
#[derive(Debug, Clone, Copy, PartialEq, Eq)]
pub enum ProtocolError {
    /// The bytes received are no document.
    InvalidDocument,
    /// A document cannot be serialised, or is too long for a message.
    Unencodable,
    /// A data plugin's first document lacks the boolean `image`.
    MissingImageFlag,
    /// A data plugin's first document lacks the document `dependencies`.
    MissingDependencies,
    /// A dependency does not map to a 32-bit integer.
    InvalidHistoryLength,
    /// An input plugin answered with a mode that is neither 0 nor 1.
    UnexpectedMode(u32),
    /// An event arrived that does not answer what was asked for.
    UnexpectedEvent,
}

/// The message that carries a document of the given fields: the serialised
/// document behind its length prefix. `None` where the document cannot be
/// serialised or is too long.
pub open spec fn message_of(entries: Entries) -> Option<Seq<u8>> {
    match encoding_of(entries) {
        Some(bytes) => if bytes.len() <= u32::MAX {
            Some(framed(bytes))
        } else {
            None
        },
        None => None,
    }
}

/// The fields of the document that a message's payload carries, with text
/// that is not UTF-8 replaced. A payload in which a code with scope carries
/// code that is not UTF-8 carries no document.
pub open spec fn parsed(payload: Seq<u8>) -> Option<Entries> {
    if scoped_code_is_text(payload) {
        decoding_of(payload)
    } else {
        None
    }
}

/// The message that carries a document.
pub fn document_message(document: &bson::Document) -> (message: Result<Vec<u8>, ProtocolError>)
    ensures
        match message {
            Ok(bytes) => message_of(entries_of(*document)) == Some(bytes@),
            Err(e) => e == ProtocolError::Unencodable && message_of(entries_of(*document)).is_none(),
        },
{
    match encode_document(document) {
        None => Err(ProtocolError::Unencodable),
        Some(bytes) => match frame(&bytes) {
            None => Err(ProtocolError::Unencodable),
            Some(message) => Ok(message),
        },
    }
}

/// Walks the value of a code with scope, which lies from `first` up to
/// `last`, and says whether its code, if the value delimits one, is UTF-8 and
/// its scope holds only such code.
fn scoped_code_holds_text(payload: &Vec<u8>, first: usize, last: usize) -> (held: bool)
    requires
        first <= last <= payload.len(),
    ensures
        held == match scoped_code_text(payload@.subrange(first as int, last as int)) {
            Some((text, scope)) => {
                let inner = payload@.subrange(first as int, last as int).subrange(
                    scope,
                    last - first,
                );
                valid_utf8(text) && elements_hold_text_code(inner, layout_of(inner), 0, 4)
            },
            None => true,
        },
    decreases last - first, 0nat,
{
    let ghost value = payload@.subrange(first as int, last as int);
    let size = last - first;
    if size < MIN_SCOPED_CODE {
        return true;
    }
    let prefix: [u8; 4] = [
        payload[first + 4],
        payload[first + 5],
        payload[first + 6],
        payload[first + 7],
    ];
    let declared = decode_length(&prefix);
    if declared < 1 || declared >= 0x8000_0000 || declared as usize > size - 8 {
        return true;
    }
    let length = declared as usize;
    if payload[first + length + 7] != 0 {
        return true;
    }
    assert(scoped_code_text(value) == Some((value.subrange(8, length + 7), length + 8)));
    assert(value.subrange(8, length + 7) =~= payload@.subrange(first + 8, first + length + 7));
    assert(value.subrange(length + 8, size as int) =~= payload@.subrange(
        first + length + 8,
        last as int,
    ));
    is_utf8(payload, first + 8, first + length + 7) && document_holds_text_code(
        payload,
        first + length + 8,
        last,
    )
}

/// Walks the bytes from `first` up to `last` as a document and says whether
/// every code with scope in it, at any depth, has UTF-8 text as its code.
fn document_holds_text_code(payload: &Vec<u8>, first: usize, last: usize) -> (held: bool)
    requires
        first <= last <= payload.len(),
    ensures
        held == elements_hold_text_code(
            payload@.subrange(first as int, last as int),
            layout_of(payload@.subrange(first as int, last as int)),
            0,
            4,
        ),
    decreases last - first, 1nat,
{
    let ghost bytes = payload@.subrange(first as int, last as int);
    let layout = element_layout(payload, first, last);
    let length = last - first;
    let mut at: usize = 4;
    let mut i: usize = 0;
    while i < layout.len()
        invariant
            i <= layout.len(),
            first <= last <= payload.len(),
            length == last - first,
            bytes == payload@.subrange(first as int, last as int),
            layout@ == layout_of(bytes),
            elements_hold_text_code(bytes, layout@, 0, 4) == elements_hold_text_code(
                bytes,
                layout@,
                i as int,
                at as int,
            ),
        decreases layout.len() - i,
    {
        let kind = layout[i].0;
        let key = layout[i].1;
        let size = layout[i].2;
        if at > length {
            return false;
        }
        let room = length - at;
        if room < 2 || key > room - 2 || size > room - 2 - key {
            return false;
        }
        let start = at + 2 + key;
        let end = start + size;
        assert(bytes.subrange(start as int, end as int) =~= payload@.subrange(
            first + start,
            first + end,
        ));
        if kind == EMBEDDED_DOCUMENT || kind == ARRAY {
            if !document_holds_text_code(payload, first + start, first + end) {
                return false;
            }
        } else if kind == SCOPED_CODE {
            if !scoped_code_holds_text(payload, first + start, first + end) {
                return false;
            }
        }
        at = end;
        i += 1;
    }
    true
}

/// Walks the document at the front of a payload and says whether every code
/// with scope in it, at any depth, has UTF-8 text as its code.
pub fn holds_text_in_scoped_code(payload: &Vec<u8>) -> (held: bool)
    ensures
        held == scoped_code_is_text(payload@),
{
    let mut last = payload.len();
    if payload.len() >= 4 {
        let prefix: [u8; 4] = [payload[0], payload[1], payload[2], payload[3]];
        let declared = decode_length(&prefix);
        if declared as usize <= payload.len() {
            last = declared as usize;
        }
    }
    assert(payload@.subrange(0, last as int) =~= declared_document(payload@));
    document_holds_text_code(payload, 0, last)
}

/// The document that a message's payload carries.
pub fn message_document(payload: &Vec<u8>) -> (document: Result<bson::Document, ProtocolError>)
    ensures
        match document {
            Ok(d) => parsed(payload@) == Some(entries_of(d)),
            Err(e) => e == ProtocolError::InvalidDocument && parsed(payload@).is_none(),
        },
{
    if !holds_text_in_scoped_code(payload) {
        return Err(ProtocolError::InvalidDocument);
    }
    match decode_document(payload) {
        None => Err(ProtocolError::InvalidDocument),
        Some(document) => Ok(document),
    }
}

/// A document's message read back off a stream, whatever follows it there,
/// yields the bytes that the document was serialised to and leaves what
/// follows.
pub proof fn lemma_message_carries_encoding(entries: Entries, rest: Seq<u8>)
    requires
        message_of(entries).is_some(),
    ensures
        encoding_of(entries).is_some(),
        unframed(message_of(entries).unwrap() + rest) == Some((encoding_of(entries).unwrap(), rest)),
{
    lemma_framing_round_trip(encoding_of(entries).unwrap(), rest);
}

} // verus!
