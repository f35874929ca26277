//! Frames: one timestamped binary payload from one input source.

use crate::document::{
    binary_value, datetime_value, entries_of, insert_field, lemma_put_new, new_document,
    text_value, Entries, Node,
};
use vstd::prelude::*;

verus! {

/// One frame. A frame is identified by its timestamp and its source; the
/// payload is the data.
#[derive(Debug, PartialEq, Eq)]
pub struct Image {
    pub data: Vec<u8>,
    /// Milliseconds since the Unix epoch at which the frame was received.
    pub timestamp: i64,
    /// The input plugin that the frame came from.
    pub input_source: String,
}

/// What a frame holds.
pub struct ImageView {
    pub data: Seq<u8>,
    pub timestamp: i64,
    pub input_source: Seq<char>,
}

impl View for Image {
    type V = ImageView;

    open spec fn view(&self) -> ImageView {
        ImageView {
            data: self.data@,
            timestamp: self.timestamp,
            input_source: self.input_source@,
        }
    }
}

/// The fields of the document that describes a frame to a data plugin: the
/// payload under `data` where it is wanted, then the source and the
/// timestamp.
pub open spec fn frame_entries(image: ImageView, with_data: bool) -> Entries {
    let described = seq![
        ("input_source"@, Node::Text(image.input_source)),
        ("timestamp"@, Node::DateTime(image.timestamp)),
    ];
    if with_data {
        seq![("data"@, Node::Binary(image.data))] + described
    } else {
        described
    }
}

/// `DateTime::now`, read as milliseconds since the Unix epoch. The clock
/// decides the result, so nothing is promised of it.
#[verifier::external_body]
pub(crate) fn now_millis() -> i64 {
    bson::DateTime::now().timestamp_millis()
}

impl Clone for Image {
    fn clone(&self) -> (copy: Self)
        ensures
            copy@ == self@,
    {
        Image {
            data: self.data.clone(),
            timestamp: self.timestamp,
            input_source: self.input_source.clone(),
        }
    }
}

impl Image {
    /// A frame received now.
    pub fn new(data: Vec<u8>, input_source: String) -> (image: Self)
        ensures
            image.data == data,
            image.input_source == input_source,
    {
        Image::received_at(data, now_millis(), input_source)
    }

    /// A frame received at the given time.
    pub fn received_at(data: Vec<u8>, timestamp: i64, input_source: String) -> (image: Self)
        ensures
            image.data == data,
            image.timestamp == timestamp,
            image.input_source == input_source,
    {
        Image { data, timestamp, input_source }
    }

    /// The document that describes the frame, with the payload under `data`
    /// where `with_data` is set and without that field otherwise.
    pub fn into_document(self, with_data: bool) -> (document: bson::Document)
        ensures
            entries_of(document) == frame_entries(self@, with_data),
    {
        proof {
            reveal_strlit("data");
            reveal_strlit("input_source");
            reveal_strlit("timestamp");
            assert("data"@.len() == 4 && "input_source"@.len() == 12 && "timestamp"@.len() == 9);
        }
        let ghost empty = Seq::<(Seq<char>, Node)>::empty();
        let mut document = new_document();
        if with_data {
            proof {
                lemma_put_new(empty, "data"@, Node::Binary(self.data@));
            }
            insert_field(&mut document, "data", binary_value(self.data));
        }
        let ghost first = entries_of(document);
        assert(first == if with_data {
            empty.push(("data"@, Node::Binary(self.data@)))
        } else {
            empty
        });
        proof {
            lemma_put_new(first, "input_source"@, Node::Text(self.input_source@));
        }
        insert_field(&mut document, "input_source", text_value(self.input_source));
        let ghost second = entries_of(document);
        proof {
            lemma_put_new(second, "timestamp"@, Node::DateTime(self.timestamp));
        }
        insert_field(&mut document, "timestamp", datetime_value(self.timestamp));
        assert(entries_of(document) =~= frame_entries(self@, with_data));
        document
    }
}

} // verus!
