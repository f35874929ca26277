use bson::{Bson, DateTime, Document};
use palleon::config::{Config, ConfigError, PluginConfig};
use palleon::data_manager::DataManager;
use palleon::data_plugins::{
    collect_dependencies, read_init, DataAction, DataEvent, DataPluginHandler, DataStage, Datum,
};
use palleon::framing::unframe;
use palleon::image::Image;
use palleon::input_plugins::{
    InputAction, InputEvent, InputPluginHandler, InputStage, FRAME_REQUEST, IDLE_MILLIS,
};
use palleon::protocol::{document_message, message_document, ProtocolError};

fn text(value: &str) -> String {
    String::from(value)
}

fn encoded(document: &Document) -> Vec<u8> {
    let mut bytes = Vec::new();
    document.to_writer(&mut bytes).unwrap();
    bytes
}

fn init_document(image: bool, dependencies: &[(&str, i32)]) -> Document {
    let mut requested = Document::new();
    for (name, length) in dependencies {
        requested.insert(*name, Bson::Int32(*length));
    }
    let mut init = Document::new();
    init.insert("image", Bson::Boolean(image));
    init.insert("dependencies", Bson::Document(requested));
    init
}

fn result_document(value: i32) -> Document {
    let mut result = Document::new();
    result.insert("steps", Bson::Int32(value));
    result
}

fn two_messages(stream: &Vec<u8>) -> (Document, Document) {
    let (first, consumed) = unframe(stream).unwrap();
    let rest = stream[consumed..].to_vec();
    let (second, taken) = unframe(&rest).unwrap();
    assert_eq!(consumed + taken, stream.len());
    (message_document(&first).unwrap(), message_document(&second).unwrap())
}

fn started(name: &str, image: bool, dependencies: &[(&str, i32)]) -> DataPluginHandler {
    let store = DataManager::new();
    let (handler, first) = DataPluginHandler::new(text(name));
    assert_eq!(first, DataAction::Receive);
    let init = encoded(&init_document(image, dependencies));
    let (handler, next) = handler.handle(DataEvent::Message(init), &store);
    assert_eq!(next, DataAction::NextImage);
    handler
}

fn config_of(start: u16, inputs: usize, data: usize) -> Config {
    let described = |i: usize| {
        (
            format!("p{}", i),
            PluginConfig {
                command: vec![text("run")],
                environment: None,
                working_directory: text("."),
            },
        )
    };
    Config {
        bind_addr: text("localhost"),
        bind_port_range_start: start,
        bind_port_gui: 1,
        data_plugins: (0..data).map(described).collect(),
        input_plugins: (0..inputs).map(described).collect(),
    }
}

#[test]
fn a_document_message_is_the_document_behind_its_length() {
    let document = result_document(7);
    let bytes = encoded(&document);
    let message = document_message(&document).unwrap();
    assert_eq!(message.len(), bytes.len() + 4);
    assert_eq!(message[..4], (bytes.len() as u32).to_le_bytes());
    assert_eq!(message[4..], bytes[..]);
}

#[test]
fn a_document_is_read_back_from_its_message() {
    let document = init_document(true, &[("A", 5), ("B", 1)]);
    let message = document_message(&document).unwrap();
    let (payload, consumed) = unframe(&message).unwrap();
    assert_eq!(consumed, message.len());
    assert_eq!(message_document(&payload), Ok(document));
}

#[test]
fn a_document_that_cannot_be_serialised_has_no_message() {
    let mut document = Document::new();
    document.insert("bad\0key", Bson::Int32(1));
    assert_eq!(document_message(&document), Err(ProtocolError::Unencodable));
}

#[test]
fn bytes_that_are_no_document_are_refused() {
    assert_eq!(message_document(&vec![1, 2, 3]), Err(ProtocolError::InvalidDocument));
    assert_eq!(message_document(&Vec::new()), Err(ProtocolError::InvalidDocument));
    let mut cut = encoded(&result_document(1));
    cut.pop();
    assert_eq!(message_document(&cut), Err(ProtocolError::InvalidDocument));
}

#[test]
fn invalid_text_in_a_document_is_replaced() {
    let mut document = Document::new();
    document.insert("k", Bson::String(text("ab")));
    let mut bytes = encoded(&document);
    let at = bytes.len() - 4;
    bytes[at] = 0xff;
    let read = message_document(&bytes).unwrap();
    assert_eq!(read.get_str("k"), Ok("\u{fffd}b"));
}

#[test]
fn an_init_document_says_what_the_plugin_wants() {
    let init = init_document(true, &[("A", 5), ("B", -1), ("C", 0)]);
    assert_eq!(read_init(&init), Ok((true, vec![(text("A"), 5), (text("B"), -1), (text("C"), 0)])));
    assert_eq!(read_init(&init_document(false, &[])), Ok((false, Vec::new())));
}

#[test]
fn an_init_document_needs_the_image_flag() {
    let mut init = init_document(true, &[]);
    init.remove("image");
    assert_eq!(read_init(&init), Err(ProtocolError::MissingImageFlag));
    init.insert("image", Bson::Int32(1));
    assert_eq!(read_init(&init), Err(ProtocolError::MissingImageFlag));
}

#[test]
fn an_init_document_needs_the_dependencies() {
    let mut init = init_document(true, &[]);
    init.remove("dependencies");
    assert_eq!(read_init(&init), Err(ProtocolError::MissingDependencies));
    init.insert("dependencies", Bson::Array(Vec::new()));
    assert_eq!(read_init(&init), Err(ProtocolError::MissingDependencies));
}

#[test]
fn a_history_length_must_be_a_32_bit_integer() {
    let mut requested = Document::new();
    requested.insert("A", Bson::Int32(5));
    requested.insert("B", Bson::Int64(5));
    let mut init = Document::new();
    init.insert("image", Bson::Boolean(true));
    init.insert("dependencies", Bson::Document(requested));
    assert_eq!(read_init(&init), Err(ProtocolError::InvalidHistoryLength));
}

#[test]
fn requested_history_comes_newest_first_in_pairs() {
    let mut store = DataManager::new();
    for i in 0..4 {
        store.add(text("A"), text("cam"), 1000 + i, Bson::Int64(i));
    }
    store.add(text("A"), text("mic"), 5, Bson::Null);
    let payload = collect_dependencies(&store, &text("cam"), &vec![(text("A"), 2)]);
    let mut expected = Document::new();
    expected.insert(
        "A",
        Bson::Array(vec![
            Bson::Array(vec![Bson::DateTime(DateTime::from_millis(1003)), Bson::Int64(3)]),
            Bson::Array(vec![Bson::DateTime(DateTime::from_millis(1002)), Bson::Int64(2)]),
        ]),
    );
    assert_eq!(payload, expected);
}

#[test]
fn a_dependency_without_a_series_is_left_out() {
    let mut store = DataManager::new();
    store.add(text("A"), text("cam"), 1, Bson::Null);
    let wanted = vec![(text("missing"), 3), (text("A"), 3), (text("other"), 1)];
    let payload = collect_dependencies(&store, &text("cam"), &wanted);
    let keys: Vec<&String> = payload.keys().collect();
    assert_eq!(keys, vec!["A"]);
    assert_eq!(collect_dependencies(&store, &text("mic"), &wanted), Document::new());
}

#[test]
fn a_history_length_of_nothing_gives_an_empty_list() {
    let mut store = DataManager::new();
    store.add(text("A"), text("cam"), 1, Bson::Null);
    let payload = collect_dependencies(&store, &text("cam"), &vec![(text("A"), 0)]);
    assert_eq!(payload.get("A"), Some(&Bson::Array(Vec::new())));
}

#[test]
fn a_negative_history_length_asks_for_everything() {
    let mut store = DataManager::new();
    for i in 0..30 {
        store.add(text("A"), text("cam"), i, Bson::Null);
    }
    let payload = collect_dependencies(&store, &text("cam"), &vec![(text("A"), -1)]);
    assert_eq!(payload.get_array("A").unwrap().len(), 30);
}

#[test]
fn dependencies_keep_their_order() {
    let mut store = DataManager::new();
    store.add(text("B"), text("cam"), 1, Bson::Null);
    store.add(text("A"), text("cam"), 1, Bson::Null);
    let wanted = vec![(text("A"), 1), (text("B"), 1)];
    let payload = collect_dependencies(&store, &text("cam"), &wanted);
    let keys: Vec<&String> = payload.keys().collect();
    assert_eq!(keys, vec!["A", "B"]);
}

#[test]
fn a_dependency_named_twice_keeps_its_place_and_takes_the_later_length() {
    let mut store = DataManager::new();
    for i in 0..3 {
        store.add(text("A"), text("cam"), i, Bson::Null);
    }
    store.add(text("B"), text("cam"), 0, Bson::Null);
    let wanted = vec![(text("A"), 1), (text("B"), 1), (text("A"), 3)];
    let payload = collect_dependencies(&store, &text("cam"), &wanted);
    let keys: Vec<&String> = payload.keys().collect();
    assert_eq!(keys, vec!["A", "B"]);
    assert_eq!(payload.get_array("A").unwrap().len(), 3);
}

#[test]
fn the_nth_payload_holds_the_results_of_the_frames_before() {
    let mut store = DataManager::new();
    let consumer = started("B", true, &[("A", 5)]);
    for n in 1..=8i64 {
        let payload = consumer.collect_plugin_data(&store, &text("cam"));
        if n == 1 {
            assert_eq!(payload, Document::new());
        } else {
            let rows = payload.get_array("A").unwrap();
            assert_eq!(rows.len() as i64, std::cmp::min(n - 1, 5));
            for (k, row) in rows.iter().enumerate() {
                let frame = n - 1 - k as i64;
                assert_eq!(
                    row,
                    &Bson::Array(vec![
                        Bson::DateTime(DateTime::from_millis(frame)),
                        Bson::Int64(frame)
                    ])
                );
            }
        }
        store.add(text("A"), text("cam"), n, Bson::Int64(n));
    }
}

#[test]
fn a_data_conversation_for_one_frame() {
    let mut store = DataManager::new();
    store.add(text("A"), text("cam"), 10, Bson::Int32(1));
    let handler = started("act", true, &[("A", 5)]);
    assert_eq!(handler.stage(), DataStage::AwaitingImage);

    let frame = Image::received_at(vec![1, 2, 3], 20, text("cam"));
    let (handler, next) = handler.handle(DataEvent::Image(frame.clone()), &store);
    assert_eq!(handler.stage(), DataStage::Sending);
    let sent = match next {
        DataAction::Send(bytes) => bytes,
        other => panic!("expected bytes to send, got {:?}", other),
    };
    let (history, described) = two_messages(&sent);
    assert_eq!(history, collect_dependencies(&store, &text("cam"), &vec![(text("A"), 5)]));
    assert_eq!(history.get_array("A").unwrap().len(), 1);
    assert_eq!(described, frame.into_document(true));

    let (handler, next) = handler.handle(DataEvent::Sent, &store);
    assert_eq!(next, DataAction::Receive);
    assert_eq!(handler.stage(), DataStage::AwaitingResult);

    let result = result_document(42);
    let (handler, next) = handler.handle(DataEvent::Message(encoded(&result)), &store);
    assert_eq!(
        next,
        DataAction::Forward(Datum {
            producer: text("act"),
            source: text("cam"),
            timestamp: 20,
            value: Bson::Document(result),
        })
    );
    assert_eq!(handler.stage(), DataStage::Forwarding);

    let (handler, next) = handler.handle(DataEvent::Forwarded, &store);
    assert_eq!(next, DataAction::NextImage);
    assert_eq!(handler.stage(), DataStage::AwaitingImage);
}

#[test]
fn a_plugin_that_wants_no_image_gets_none() {
    let store = DataManager::new();
    let handler = started("act", false, &[]);
    let frame = Image::received_at(vec![1, 2, 3], 20, text("cam"));
    let (_, next) = handler.handle(DataEvent::Image(frame.clone()), &store);
    let sent = match next {
        DataAction::Send(bytes) => bytes,
        other => panic!("expected bytes to send, got {:?}", other),
    };
    let (history, described) = two_messages(&sent);
    assert_eq!(history, Document::new());
    assert_eq!(described, frame.into_document(false));
    assert!(!described.contains_key("data"));
}

#[test]
fn an_invalid_init_ends_the_conversation() {
    let store = DataManager::new();
    let (handler, _) = DataPluginHandler::new(text("act"));
    let (handler, next) = handler.handle(DataEvent::Message(vec![0, 1, 2]), &store);
    assert_eq!(next, DataAction::Abort(ProtocolError::InvalidDocument));
    assert_eq!(handler.stage(), DataStage::Failed);

    let (handler, _) = DataPluginHandler::new(text("act"));
    let empty = encoded(&Document::new());
    let (handler, next) = handler.handle(DataEvent::Message(empty), &store);
    assert_eq!(next, DataAction::Abort(ProtocolError::MissingImageFlag));
    assert_eq!(handler.stage(), DataStage::Failed);
}

#[test]
fn a_broken_result_ends_the_conversation() {
    let store = DataManager::new();
    let handler = started("act", true, &[]);
    let frame = Image::received_at(vec![1], 1, text("cam"));
    let (handler, _) = handler.handle(DataEvent::Image(frame), &store);
    let (handler, _) = handler.handle(DataEvent::Sent, &store);
    let mut cut = encoded(&result_document(1));
    cut.truncate(6);
    let (handler, next) = handler.handle(DataEvent::Message(cut), &store);
    assert_eq!(next, DataAction::Abort(ProtocolError::InvalidDocument));
    assert_eq!(handler.stage(), DataStage::Failed);
    let (handler, next) = handler.handle(DataEvent::Forwarded, &store);
    assert_eq!(next, DataAction::Abort(ProtocolError::UnexpectedEvent));
    assert_eq!(handler.stage(), DataStage::Failed);
}

#[test]
fn an_event_out_of_turn_ends_a_data_conversation() {
    let store = DataManager::new();
    let handler = started("act", true, &[]);
    let (handler, next) = handler.handle(DataEvent::Sent, &store);
    assert_eq!(next, DataAction::Abort(ProtocolError::UnexpectedEvent));
    assert_eq!(handler.stage(), DataStage::Failed);
}

#[test]
fn a_cloned_datum_equals_the_datum() {
    let datum = Datum {
        producer: text("act"),
        source: text("cam"),
        timestamp: 3,
        value: Bson::Document(result_document(9)),
    };
    assert_eq!(datum.clone(), datum);
}

#[test]
fn an_input_conversation_starts_with_a_request() {
    let (handler, first) = InputPluginHandler::new(text("cam"));
    assert_eq!(FRAME_REQUEST, b'i');
    assert_eq!(first, InputAction::Send(vec![b'i']));
    assert_eq!(handler.stage(), InputStage::Requesting);
}

#[test]
fn an_input_plugin_with_nothing_makes_the_core_pause() {
    let (handler, _) = InputPluginHandler::new(text("cam"));
    let (handler, next) = handler.handle(InputEvent::Sent);
    assert_eq!(next, InputAction::ReadMode);
    let (handler, next) = handler.handle(InputEvent::Mode(0));
    assert_eq!(IDLE_MILLIS, 1000);
    assert_eq!(next, InputAction::Sleep(1000));
    assert_eq!(handler.stage(), InputStage::Idling);
    let (handler, next) = handler.handle(InputEvent::Slept);
    assert_eq!(next, InputAction::Send(vec![b'i']));
    assert_eq!(handler.stage(), InputStage::Requesting);
}

#[test]
fn an_input_plugin_with_a_frame_has_it_emitted() {
    let (handler, _) = InputPluginHandler::new(text("cam"));
    let (handler, _) = handler.handle_at(InputEvent::Sent, 1);
    let (handler, next) = handler.handle_at(InputEvent::Mode(1), 2);
    assert_eq!(next, InputAction::ReadFrame);
    assert_eq!(handler.stage(), InputStage::AwaitingFrame);
    let (handler, next) = handler.handle_at(InputEvent::Frame(vec![1, 2, 3]), 777);
    assert_eq!(
        next,
        InputAction::Emit(Image { data: vec![1, 2, 3], timestamp: 777, input_source: text("cam") })
    );
    assert_eq!(handler.stage(), InputStage::Emitting);
    let (handler, next) = handler.handle_at(InputEvent::Emitted, 778);
    assert_eq!(next, InputAction::Send(vec![b'i']));
    assert_eq!(handler.stage(), InputStage::Requesting);
}

#[test]
fn a_frame_is_stamped_when_it_arrives() {
    let (handler, _) = InputPluginHandler::new(text("cam"));
    let (handler, _) = handler.handle(InputEvent::Sent);
    let (handler, _) = handler.handle(InputEvent::Mode(1));
    let before = DateTime::now().timestamp_millis();
    let (_, next) = handler.handle(InputEvent::Frame(vec![5]));
    let after = DateTime::now().timestamp_millis();
    match next {
        InputAction::Emit(image) => {
            assert_eq!(image.data, vec![5]);
            assert_eq!(image.input_source, "cam");
            assert!(before <= image.timestamp && image.timestamp <= after);
        },
        other => panic!("expected a frame, got {:?}", other),
    }
}

#[test]
fn an_unknown_mode_ends_the_conversation() {
    let (handler, _) = InputPluginHandler::new(text("cam"));
    let (handler, _) = handler.handle(InputEvent::Sent);
    let (handler, next) = handler.handle(InputEvent::Mode(2));
    assert_eq!(next, InputAction::Abort(ProtocolError::UnexpectedMode(2)));
    assert_eq!(handler.stage(), InputStage::Failed);
    let (_, next) = handler.handle(InputEvent::Sent);
    assert_eq!(next, InputAction::Abort(ProtocolError::UnexpectedEvent));
}

#[test]
fn an_event_out_of_turn_ends_an_input_conversation() {
    let (handler, _) = InputPluginHandler::new(text("cam"));
    let (handler, next) = handler.handle(InputEvent::Mode(1));
    assert_eq!(next, InputAction::Abort(ProtocolError::UnexpectedEvent));
    assert_eq!(handler.stage(), InputStage::Failed);
}

#[test]
fn input_plugins_start_on_the_first_ports() {
    let cfg = config_of(7000, 2, 3);
    let plugins = palleon::input_plugins::start(&cfg).unwrap();
    let ports: Vec<u16> = plugins.iter().map(|p| p.bind_port()).collect();
    assert_eq!(ports, vec![7000, 7001]);
    assert_eq!(plugins[1].bind_address(), "localhost:7001");
}

#[test]
fn data_plugins_start_on_the_ports_that_follow() {
    let cfg = config_of(7000, 2, 3);
    let plugins = palleon::data_plugins::start(&cfg).unwrap();
    let ports: Vec<u16> = plugins.iter().map(|p| p.bind_port()).collect();
    assert_eq!(ports, vec![7002, 7003, 7004]);
}

#[test]
fn plugins_beyond_the_last_port_do_not_start() {
    let cfg = config_of(65_534, 2, 1);
    assert_eq!(palleon::input_plugins::start(&cfg).unwrap().len(), 2);
    assert!(matches!(palleon::data_plugins::start(&cfg), Err(ConfigError::PortOutOfRange)));
}

#[test]
fn a_document_message_is_read_back_whatever_follows_it() {
    let document = init_document(false, &[("A", 2)]);
    let bytes = encoded(&document);
    let mut stream = document_message(&document).unwrap();
    let length = stream.len();
    stream.extend_from_slice(&[0xde, 0xad, 0xbe, 0xef]);
    let (payload, consumed) = unframe(&stream).unwrap();
    assert_eq!(payload, bytes);
    assert_eq!(consumed, length);
    assert_eq!(message_document(&payload), Ok(document));
}
