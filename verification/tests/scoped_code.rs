use bson::{Bson, Document, JavaScriptCodeWithScope};
use palleon::data_manager::DataManager;
use palleon::data_plugins::{DataAction, DataEvent, DataPluginHandler, DataStage};
use palleon::protocol::{holds_text_in_scoped_code, message_document, ProtocolError};

fn encoded(document: &Document) -> Vec<u8> {
    let mut bytes = Vec::new();
    document.to_writer(&mut bytes).unwrap();
    bytes
}

/// A document whose only element, under the key `a`, is a piece of code with
/// scope: the code is three bytes that are no UTF-8, the scope is empty.
fn broken_scoped_code() -> Vec<u8> {
    vec![
        0x19, 0x00, 0x00, 0x00, 0x0f, 0x61, 0x00, 0x11, 0x00, 0x00, 0x00, 0x04, 0x00, 0x00, 0x00,
        0xff, 0xff, 0xff, 0x00, 0x05, 0x00, 0x00, 0x00, 0x00, 0x00,
    ]
}

/// The bytes of a document that holds `inner` under the key `k`, as an
/// embedded document or as an array.
fn wrapped(kind: u8, inner: &[u8]) -> Vec<u8> {
    let length = (4 + 1 + 2 + inner.len() + 1) as u32;
    let mut bytes = length.to_le_bytes().to_vec();
    bytes.push(kind);
    bytes.extend_from_slice(&[b'k', 0x00]);
    bytes.extend_from_slice(inner);
    bytes.push(0x00);
    bytes
}

fn scoped_code() -> Bson {
    let mut scope = Document::new();
    scope.insert("x", Bson::Int32(1));
    Bson::JavaScriptCodeWithScope(JavaScriptCodeWithScope { code: String::from("f(x)"), scope })
}

/// Replaces the first letter of the first string `ab` by a byte that is no
/// UTF-8.
fn with_broken_text(mut bytes: Vec<u8>) -> Vec<u8> {
    let pattern = [0x03, 0x00, 0x00, 0x00, b'a', b'b', 0x00];
    let at = bytes.windows(pattern.len()).position(|w| w == pattern).unwrap();
    bytes[at + 4] = 0xff;
    bytes
}

/// The bytes of a document that holds, under the key `c`, a piece of code
/// with the given code and scope.
fn with_scoped_code(code: &[u8], scope: &[u8]) -> Vec<u8> {
    let value_length = (4 + 4 + code.len() + 1 + scope.len()) as u32;
    let length = (4 + 1 + 2 + value_length as usize + 1) as u32;
    let mut bytes = length.to_le_bytes().to_vec();
    bytes.push(0x0f);
    bytes.extend_from_slice(&[b'c', 0x00]);
    bytes.extend_from_slice(&value_length.to_le_bytes());
    bytes.extend_from_slice(&(code.len() as u32 + 1).to_le_bytes());
    bytes.extend_from_slice(code);
    bytes.push(0x00);
    bytes.extend_from_slice(scope);
    bytes.push(0x00);
    bytes
}

fn document_with_text(text: &str) -> Document {
    let mut document = Document::new();
    document.insert("text", Bson::String(String::from(text)));
    document
}

#[test]
fn broken_code_with_scope_is_refused() {
    assert!(!holds_text_in_scoped_code(&broken_scoped_code()));
    assert_eq!(message_document(&broken_scoped_code()), Err(ProtocolError::InvalidDocument));
}

#[test]
fn broken_code_with_scope_is_refused_at_any_depth() {
    let in_document = wrapped(0x03, &broken_scoped_code());
    let in_array = wrapped(0x04, &broken_scoped_code());
    let deeper = wrapped(0x03, &wrapped(0x04, &wrapped(0x03, &broken_scoped_code())));
    let in_scope = with_scoped_code(b"f()", &broken_scoped_code());
    let deep_in_scope = wrapped(0x04, &with_scoped_code(b"f()", &wrapped(0x03, &in_scope)));
    for bytes in [in_document, in_array, deeper, in_scope, deep_in_scope] {
        assert!(!holds_text_in_scoped_code(&bytes));
        assert_eq!(message_document(&bytes), Err(ProtocolError::InvalidDocument));
    }
}

#[test]
fn code_with_one_broken_byte_is_refused() {
    let bytes = with_scoped_code(&[b'f', 0xff], &encoded(&Document::new()));
    assert!(!holds_text_in_scoped_code(&bytes));
    assert_eq!(message_document(&bytes), Err(ProtocolError::InvalidDocument));
}

#[test]
fn broken_code_with_scope_ends_a_data_conversation() {
    let store = DataManager::new();
    let (handler, _) = DataPluginHandler::new(String::from("act"));
    let (handler, next) = handler.handle(DataEvent::Message(broken_scoped_code()), &store);
    assert_eq!(next, DataAction::Abort(ProtocolError::InvalidDocument));
    assert_eq!(handler.stage(), DataStage::Failed);
}

#[test]
fn sound_code_with_scope_is_read() {
    let mut document = Document::new();
    document.insert("n", Bson::Int32(15));
    document.insert("code", scoped_code());
    let bytes = encoded(&document);
    assert!(holds_text_in_scoped_code(&bytes));
    assert_eq!(message_document(&bytes), Ok(document));
}

#[test]
fn sound_code_with_scope_is_read_at_any_depth() {
    let mut inner = Document::new();
    inner.insert("list", Bson::Array(vec![Bson::Int32(1), scoped_code()]));
    let mut document = Document::new();
    document.insert("inner", Bson::Document(inner));
    let bytes = encoded(&document);
    assert!(holds_text_in_scoped_code(&bytes));
    assert_eq!(message_document(&bytes), Ok(document));
}

#[test]
fn hand_made_code_with_scope_is_read() {
    let bytes = with_scoped_code(b"f(x)", &encoded(&document_with_text("ab")));
    let mut expected = Document::new();
    expected.insert(
        "c",
        Bson::JavaScriptCodeWithScope(JavaScriptCodeWithScope {
            code: String::from("f(x)"),
            scope: document_with_text("ab"),
        }),
    );
    assert_eq!(encoded(&expected), bytes);
    assert_eq!(message_document(&bytes), Ok(expected));
}

#[test]
fn broken_text_beside_code_with_scope_is_replaced() {
    let mut document = Document::new();
    document.insert("text", Bson::String(String::from("ab")));
    document.insert("code", scoped_code());
    let bytes = with_broken_text(encoded(&document));
    assert!(holds_text_in_scoped_code(&bytes));

    let mut expected = Document::new();
    expected.insert("text", Bson::String(String::from("\u{fffd}b")));
    expected.insert("code", scoped_code());
    assert_eq!(message_document(&bytes), Ok(expected));
}

#[test]
fn broken_text_in_a_scope_is_replaced() {
    let scope = with_broken_text(encoded(&document_with_text("ab")));
    let bytes = with_scoped_code(b"f(x)", &scope);
    assert!(holds_text_in_scoped_code(&bytes));

    let mut expected = Document::new();
    expected.insert(
        "c",
        Bson::JavaScriptCodeWithScope(JavaScriptCodeWithScope {
            code: String::from("f(x)"),
            scope: document_with_text("\u{fffd}b"),
        }),
    );
    assert_eq!(message_document(&bytes), Ok(expected));
}

#[test]
fn a_plain_document_holds_no_broken_code() {
    let mut inner = Document::new();
    inner.insert("fifteen", Bson::Int32(15));
    inner.insert("bytes", Bson::Array(vec![Bson::Int64(0x0f0f_0f0f), Bson::Null]));
    let mut document = Document::new();
    document.insert("inner", Bson::Document(inner));
    document.insert("text", Bson::String(String::from("\u{f}\u{f}")));
    document.insert("code", Bson::JavaScriptCode(String::from("f()")));
    assert!(holds_text_in_scoped_code(&encoded(&document)));
    assert!(holds_text_in_scoped_code(&encoded(&Document::new())));
}

#[test]
fn bytes_that_are_no_document_hold_no_code_and_are_refused() {
    let mut longer_than_declared = encoded(&Document::new());
    longer_than_declared[0] = 6;
    let samples = [
        Vec::new(),
        vec![1, 2, 3],
        vec![5, 0, 0, 0, 1],
        vec![8, 0, 0, 0, 0x10, b'k', 0, 0],
        vec![0xff, 0xff, 0xff, 0xff, 0],
        longer_than_declared,
    ];
    for bytes in samples {
        assert!(holds_text_in_scoped_code(&bytes));
        assert_eq!(message_document(&bytes), Err(ProtocolError::InvalidDocument));
    }
}

#[test]
fn a_code_with_scope_that_does_not_delimit_its_code_is_refused() {
    let sound = with_scoped_code(b"f(x)", &encoded(&Document::new()));
    let mut too_long = sound.clone();
    too_long[11] = 0x40;
    let mut negative = sound.clone();
    negative[14] = 0x80;
    let mut unclosed = sound.clone();
    unclosed[19] = b'!';
    for bytes in [too_long, negative, unclosed] {
        assert!(holds_text_in_scoped_code(&bytes));
        assert_eq!(message_document(&bytes), Err(ProtocolError::InvalidDocument));
    }
}

#[test]
fn broken_text_is_replaced_at_any_depth() {
    let mut inner = Document::new();
    inner.insert("fifteen", Bson::Int32(15));
    inner.insert("list", Bson::Array(vec![Bson::String(String::from("ab"))]));
    let mut document = Document::new();
    document.insert("inner", Bson::Document(inner));
    let bytes = with_broken_text(encoded(&document));
    assert!(holds_text_in_scoped_code(&bytes));

    let mut replaced = Document::new();
    replaced.insert("fifteen", Bson::Int32(15));
    replaced.insert("list", Bson::Array(vec![Bson::String(String::from("\u{fffd}b"))]));
    let mut expected = Document::new();
    expected.insert("inner", Bson::Document(replaced));
    assert_eq!(message_document(&bytes), Ok(expected));
}

#[test]
fn what_follows_a_document_is_passed_over() {
    let mut document = Document::new();
    document.insert("n", Bson::Int32(1));
    let mut bytes = encoded(&document);
    bytes.extend_from_slice(&[1, 2, 3]);
    assert_eq!(message_document(&bytes), Ok(document));

    let mut broken = with_broken_text(encoded(&document_with_text("ab")));
    broken.extend_from_slice(&broken_scoped_code());
    assert!(holds_text_in_scoped_code(&broken));
    assert_eq!(message_document(&broken), Ok(document_with_text("\u{fffd}b")));
}

#[test]
fn mangled_documents_are_read_or_refused() {
    let mut inner = Document::new();
    inner.insert("text", Bson::String(String::from("ab")));
    inner.insert("list", Bson::Array(vec![Bson::Int32(1), scoped_code(), Bson::Null]));
    inner.insert("symbol", Bson::Symbol(String::from("s")));
    let mut document = Document::new();
    document.insert("inner", Bson::Document(inner));
    document.insert("code", scoped_code());
    document.insert("plain", Bson::JavaScriptCode(String::from("g()")));
    document.insert("flag", Bson::Boolean(true));
    let mut plain = Document::new();
    plain.insert("text", Bson::String(String::from("abcdef")));
    plain.insert("list", Bson::Array(vec![Bson::String(String::from("xyz")), Bson::Double(1.5)]));
    let nested = with_scoped_code(
        "f(\u{e9})".as_bytes(),
        &wrapped(0x04, &with_scoped_code(b"g()", &encoded(&plain))),
    );
    let corpus = [encoded(&document), encoded(&plain), broken_scoped_code(), nested];

    let mut state: u64 = 0x2545_f491_4f6c_dd1d;
    let mut next = move || {
        state ^= state << 13;
        state ^= state >> 7;
        state ^= state << 17;
        state
    };
    let mut read = 0;
    for round in 0..200_000 {
        let mut bytes = corpus[round % corpus.len()].clone();
        let changes = 1 + (next() % 4) as usize;
        for _ in 0..changes {
            let at = 4 + (next() as usize) % (bytes.len() - 4);
            bytes[at] = match next() % 4 {
                0 => 0xff,
                1 => 0x0f,
                2 => 0x00,
                _ => next() as u8,
            };
        }
        if message_document(&bytes).is_ok() {
            read += 1;
        }
    }
    assert!(read > 0);
}
