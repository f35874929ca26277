//! The conversation with one data plugin.
//!
//! A data plugin first says what it wants: whether frames should carry their
//! payload, and how much history of which other data plugins. Then, for each
//! frame, it is sent that history and the frame, and answers with one
//! document, which becomes the datum of that frame.
//!
//! [`DataPluginHandler`] decides what to do next on each event. Reading and
//! writing the connection and the channels is the caller's business.

use crate::config::{Config, ConfigError};
use crate::data_manager::{
    appended, lemma_append_is_visible, newest, DataManager, Entry, History, MAX_VALUES,
};
use crate::document::{
    array_value, as_int32, bool_field, clone_value, datetime_value, document_field,
    document_value, entries_of, field, insert_field, int32_fields, lemma_put_new, new_document,
    node_of, nodes_of, put, Entries, Node,
};
use crate::image::{frame_entries, Image, ImageView};
use crate::plugin::{plan, plan_at, Plugin, PluginKind, PluginView};
use crate::protocol::{document_message, message_document, message_of, parsed, ProtocolError};
use vstd::prelude::*;

verus! {

/// What a data plugin returned for one frame.
#[derive(Debug, PartialEq)]
pub struct Datum {
    /// The data plugin.
    pub producer: String,
    /// The input plugin that the frame came from.
    pub source: String,
    /// The timestamp of the frame.
    pub timestamp: i64,
    pub value: bson::Bson,
}

/// What a datum holds.
pub struct DatumView {
    pub producer: Seq<char>,
    pub source: Seq<char>,
    pub timestamp: i64,
    pub value: Node,
}

impl View for Datum {
    type V = DatumView;

    open spec fn view(&self) -> DatumView {
        DatumView {
            producer: self.producer@,
            source: self.source@,
            timestamp: self.timestamp,
            value: node_of(self.value),
        }
    }
}

impl Clone for Datum {
    fn clone(&self) -> (copy: Self)
        ensures
            copy@ == self@,
    {
        Datum {
            producer: self.producer.clone(),
            source: self.source.clone(),
            timestamp: self.timestamp,
            value: clone_value(&self.value),
        }
    }
}

/// A dependency: the name of a data plugin and how many of its newest
/// results are wanted.
pub type Dependencies = Seq<(Seq<char>, i32)>;

/// The number of entries that a requested history length stands for. A
/// negative length asks for everything there is.
pub open spec fn window(length: i32) -> nat {
    if length < 0 {
        MAX_VALUES as nat
    } else {
        length as nat
    }
}

/// The history of one dependency as it is sent: one pair of timestamp and
/// value for each entry.
pub open spec fn dependency_rows(entries: Seq<Entry>) -> Seq<Node> {
    entries.map_values(|e: Entry| Node::Array(seq![Node::DateTime(e.0), node_of(e.1)]))
}

/// The fields of the document that carries the requested history for a frame
/// of `source`: for each dependency that has a series, its name with that
/// series' newest entries, newest first. A dependency without a series is left
/// out.
pub open spec fn dependency_entries(
    history: History,
    source: Seq<char>,
    dependencies: Dependencies,
) -> Entries
    decreases dependencies.len(),
{
    if dependencies.len() == 0 {
        Seq::empty()
    } else {
        let before = dependency_entries(history, source, dependencies.drop_last());
        let dependency = dependencies.last();
        if history.contains_key((dependency.0, source)) {
            put(
                before,
                dependency.0,
                Node::Array(
                    dependency_rows(newest(history[(dependency.0, source)], window(dependency.1))),
                ),
            )
        } else {
            before
        }
    }
}

/// Dependency visibility: once a result is appended to a series, the history
/// sent for the next frame of that source, to a plugin that asks for at least
/// one entry of that series, starts with this result.
pub proof fn lemma_dependency_sees_append(
    history: History,
    producer: Seq<char>,
    source: Seq<char>,
    entry: Entry,
    length: i32,
)
    requires
        length != 0,
    ensures
        ({
            let after = appended(history, (producer, source), entry);
            let sent = dependency_entries(after, source, seq![(producer, length)]);
            let rows = dependency_rows(newest(after[(producer, source)], window(length)));
            &&& sent == seq![(producer, Node::Array(rows))]
            &&& rows.len() >= 1
            &&& rows[0] == Node::Array(seq![Node::DateTime(entry.0), node_of(entry.1)])
        }),
{
    let after = appended(history, (producer, source), entry);
    let wanted = seq![(producer, length)];
    lemma_append_is_visible(history, (producer, source), entry, window(length));
    assert(wanted.drop_last() =~= Seq::<(Seq<char>, i32)>::empty());
    assert(dependency_entries(after, source, wanted.drop_last()) =~= Seq::empty());
    let rows = dependency_rows(newest(after[(producer, source)], window(length)));
    lemma_put_new(Seq::empty(), producer, Node::Array(rows));
    assert(dependency_entries(after, source, wanted) =~= seq![(producer, Node::Array(rows))]);
}

/// What a data plugin's first document asks for: whether frames carry their
/// payload, and the dependencies.
pub open spec fn init_of(entries: Entries) -> Result<(bool, Dependencies), ProtocolError> {
    match field(entries, "image"@) {
        Some(Node::Boolean(wants_image)) => match field(entries, "dependencies"@) {
            Some(Node::Document(requested)) => if forall|i: int|
                0 <= i < requested.len() ==> as_int32(#[trigger] requested[i].1).is_some() {
                Ok(
                    (
                        wants_image,
                        requested.map_values(
                            |e: (Seq<char>, Node)| (e.0, as_int32(e.1).unwrap()),
                        ),
                    ),
                )
            } else {
                Err(ProtocolError::InvalidHistoryLength)
            },
            _ => Err(ProtocolError::MissingDependencies),
        },
        _ => Err(ProtocolError::MissingImageFlag),
    }
}

/// The text of each dependency's name, with its length.
pub open spec fn dependencies_of(dependencies: Seq<(String, i32)>) -> Dependencies {
    dependencies.map_values(|d: (String, i32)| (d.0@, d.1))
}

/// Where a conversation stands.
#[derive(Debug, Clone, Copy, PartialEq, Eq)]
pub enum DataStage {
    /// The plugin's first document is awaited.
    AwaitingInit,
    /// The next frame is awaited.
    AwaitingImage,
    /// History and frame are being sent.
    Sending,
    /// The plugin's result for the frame is awaited.
    AwaitingResult,
    /// The datum is being handed on.
    Forwarding,
    /// The conversation has failed.
    Failed,
}

/// What happened.
#[derive(Debug)]
pub enum DataEvent {
    /// A message arrived from the plugin.
    Message(Vec<u8>),
    /// A frame arrived.
    Image(Image),
    /// The bytes were written.
    Sent,
    /// The datum was handed on.
    Forwarded,
}

/// What an event holds.
pub enum DataEventView {
    Message(Seq<u8>),
    Image(ImageView),
    Sent,
    Forwarded,
}

impl View for DataEvent {
    type V = DataEventView;

    open spec fn view(&self) -> DataEventView {
        match *self {
            DataEvent::Message(bytes) => DataEventView::Message(bytes@),
            DataEvent::Image(image) => DataEventView::Image(image@),
            DataEvent::Sent => DataEventView::Sent,
            DataEvent::Forwarded => DataEventView::Forwarded,
        }
    }
}

/// What to do next.
#[derive(Debug, PartialEq)]
pub enum DataAction {
    /// Read one message from the plugin.
    Receive,
    /// Wait for the next frame.
    NextImage,
    /// Write these bytes to the plugin.
    Send(Vec<u8>),
    /// Hand the datum on.
    Forward(Datum),
    /// Give the connection up.
    Abort(ProtocolError),
}

/// What an action holds.
pub enum DataActionView {
    Receive,
    NextImage,
    Send(Seq<u8>),
    Forward(DatumView),
    Abort(ProtocolError),
}

impl View for DataAction {
    type V = DataActionView;

    open spec fn view(&self) -> DataActionView {
        match *self {
            DataAction::Receive => DataActionView::Receive,
            DataAction::NextImage => DataActionView::NextImage,
            DataAction::Send(bytes) => DataActionView::Send(bytes@),
            DataAction::Forward(datum) => DataActionView::Forward(datum@),
            DataAction::Abort(e) => DataActionView::Abort(e),
        }
    }
}

/// The conversation with one data plugin.
pub struct DataPluginHandler {
    name: String,
    stage: DataStage,
    wants_image: bool,
    dependencies: Vec<(String, i32)>,
    source: String,
    timestamp: i64,
}

/// What a conversation holds.
pub struct DataPluginHandlerView {
    /// The data plugin.
    pub name: Seq<char>,
    pub stage: DataStage,
    /// Whether frames are sent with their payload.
    pub wants_image: bool,
    pub dependencies: Dependencies,
    /// The source of the frame in hand.
    pub source: Seq<char>,
    /// The timestamp of the frame in hand.
    pub timestamp: i64,
}

impl View for DataPluginHandler {
    type V = DataPluginHandlerView;

    closed spec fn view(&self) -> DataPluginHandlerView {
        DataPluginHandlerView {
            name: self.name@,
            stage: self.stage,
            wants_image: self.wants_image,
            dependencies: dependencies_of(self.dependencies@),
            source: self.source@,
            timestamp: self.timestamp,
        }
    }
}

/// The conversation after a failure.
pub open spec fn failed(handler: DataPluginHandlerView, error: ProtocolError) -> (
    DataPluginHandlerView,
    DataActionView,
) {
    (DataPluginHandlerView { stage: DataStage::Failed, ..handler }, DataActionView::Abort(error))
}

/// The bytes sent for a frame: the message with the requested history, then
/// the message that describes the frame.
pub open spec fn frame_messages(
    handler: DataPluginHandlerView,
    image: ImageView,
    history: History,
) -> Option<Seq<u8>> {
    match message_of(dependency_entries(history, image.input_source, handler.dependencies)) {
        Some(first) => match message_of(frame_entries(image, handler.wants_image)) {
            Some(second) => Some(first + second),
            None => None,
        },
        None => None,
    }
}

/// The conversation after an event, and what to do next.
pub open spec fn data_step(
    handler: DataPluginHandlerView,
    event: DataEventView,
    history: History,
) -> (DataPluginHandlerView, DataActionView) {
    match (handler.stage, event) {
        (DataStage::AwaitingInit, DataEventView::Message(bytes)) => match parsed(bytes) {
            Some(entries) => match init_of(entries) {
                Ok((wants_image, dependencies)) => (
                    DataPluginHandlerView {
                        stage: DataStage::AwaitingImage,
                        wants_image,
                        dependencies,
                        ..handler
                    },
                    DataActionView::NextImage,
                ),
                Err(e) => failed(handler, e),
            },
            None => failed(handler, ProtocolError::InvalidDocument),
        },
        (DataStage::AwaitingImage, DataEventView::Image(image)) => match frame_messages(
            handler,
            image,
            history,
        ) {
            Some(bytes) => (
                DataPluginHandlerView {
                    stage: DataStage::Sending,
                    source: image.input_source,
                    timestamp: image.timestamp,
                    ..handler
                },
                DataActionView::Send(bytes),
            ),
            None => failed(handler, ProtocolError::Unencodable),
        },
        (DataStage::Sending, DataEventView::Sent) => (
            DataPluginHandlerView { stage: DataStage::AwaitingResult, ..handler },
            DataActionView::Receive,
        ),
        (DataStage::AwaitingResult, DataEventView::Message(bytes)) => match parsed(bytes) {
            Some(entries) => (
                DataPluginHandlerView { stage: DataStage::Forwarding, ..handler },
                DataActionView::Forward(
                    DatumView {
                        producer: handler.name,
                        source: handler.source,
                        timestamp: handler.timestamp,
                        value: Node::Document(entries),
                    },
                ),
            ),
            None => failed(handler, ProtocolError::InvalidDocument),
        },
        (DataStage::Forwarding, DataEventView::Forwarded) => (
            DataPluginHandlerView { stage: DataStage::AwaitingImage, ..handler },
            DataActionView::NextImage,
        ),
        _ => failed(handler, ProtocolError::UnexpectedEvent),
    }
}

/// Reads what a data plugin's first document asks for.
pub fn read_init(document: &bson::Document) -> (init: Result<
    (bool, Vec<(String, i32)>),
    ProtocolError,
>)
    ensures
        match init {
            Ok((wants_image, dependencies)) => init_of(entries_of(*document)) == Ok::<
                (bool, Dependencies),
                ProtocolError,
            >((wants_image, dependencies_of(dependencies@))),
            Err(e) => init_of(entries_of(*document)) == Err::<(bool, Dependencies), ProtocolError>(
                e,
            ),
        },
{
    let wants_image = match bool_field(document, "image") {
        Some(wants_image) => wants_image,
        None => {
            return Err(ProtocolError::MissingImageFlag);
        },
    };
    let requested = match document_field(document, "dependencies") {
        Some(requested) => requested,
        None => {
            return Err(ProtocolError::MissingDependencies);
        },
    };
    let fields = int32_fields(requested);
    let ghost nodes = entries_of(*requested);
    let mut dependencies: Vec<(String, i32)> = Vec::new();
    let mut i: usize = 0;
    while i < fields.len()
        invariant
            i <= fields.len(),
            fields.len() == nodes.len(),
            field(entries_of(*document), "image"@) == Some(Node::Boolean(wants_image)),
            field(entries_of(*document), "dependencies"@) == Some(Node::Document(nodes)),
            forall|k: int|
                0 <= k < fields.len() ==> {
                    &&& (#[trigger] fields[k]).0@ == nodes[k].0
                    &&& fields[k].1 == as_int32(nodes[k].1)
                },
            dependencies.len() == i,
            forall|k: int|
                0 <= k < i ==> {
                    &&& as_int32(nodes[k].1) == Some((#[trigger] dependencies[k]).1)
                    &&& dependencies[k].0@ == nodes[k].0
                },
        decreases fields.len() - i,
    {
        match fields[i].1 {
            Some(length) => {
                dependencies.push((fields[i].0.clone(), length));
            },
            None => {
                assert(as_int32(nodes[i as int].1).is_none());
                return Err(ProtocolError::InvalidHistoryLength);
            },
        }
        i += 1;
    }
    assert forall|k: int| 0 <= k < nodes.len() implies as_int32(#[trigger] nodes[k].1).is_some() by {
        assert(as_int32(nodes[k].1) == Some(dependencies[k].1));
    }
    assert(dependencies_of(dependencies@) =~= nodes.map_values(
        |e: (Seq<char>, Node)| (e.0, as_int32(e.1).unwrap()),
    ));
    Ok((wants_image, dependencies))
}

fn history_rows(entries: &Vec<Entry>) -> (rows: Vec<bson::Bson>)
    ensures
        nodes_of(rows@) == dependency_rows(entries@),
{
    let mut rows: Vec<bson::Bson> = Vec::new();
    let mut i: usize = 0;
    while i < entries.len()
        invariant
            i <= entries.len(),
            rows.len() == i,
            forall|k: int|
                0 <= k < i ==> node_of(#[trigger] rows[k]) == Node::Array(
                    seq![Node::DateTime(entries[k].0), node_of(entries[k].1)],
                ),
        decreases entries.len() - i,
    {
        let mut pair: Vec<bson::Bson> = Vec::new();
        pair.push(datetime_value(entries[i].0));
        pair.push(clone_value(&entries[i].1));
        assert(nodes_of(pair@) =~= seq![
            Node::DateTime(entries[i as int].0),
            node_of(entries[i as int].1),
        ]);
        rows.push(array_value(pair));
        i += 1;
    }
    assert(nodes_of(rows@) =~= dependency_rows(entries@));
    rows
}

/// The document that carries the requested history for a frame of `source`.
pub fn collect_dependencies(
    store: &DataManager,
    source: &String,
    dependencies: &Vec<(String, i32)>,
) -> (document: bson::Document)
    ensures
        entries_of(document) == dependency_entries(
            store@,
            source@,
            dependencies_of(dependencies@),
        ),
{
    let ghost wanted = dependencies_of(dependencies@);
    let mut document = new_document();
    let mut i: usize = 0;
    while i < dependencies.len()
        invariant
            i <= dependencies.len(),
            wanted == dependencies_of(dependencies@),
            entries_of(document) == dependency_entries(store@, source@, wanted.take(i as int)),
        decreases dependencies.len() - i,
    {
        let length = dependencies[i].1;
        let count: usize = if length < 0 {
            MAX_VALUES
        } else {
            length as usize
        };
        assert(wanted.take(i + 1).drop_last() =~= wanted.take(i as int));
        assert(wanted.take(i + 1).last() == (dependencies[i as int].0@, length));
        match store.get_last(&dependencies[i].0, source, count) {
            Some(entries) => {
                let rows = history_rows(&entries);
                insert_field(&mut document, dependencies[i].0.as_str(), array_value(rows));
            },
            None => {},
        }
        i += 1;
    }
    assert(wanted.take(i as int) =~= wanted);
    document
}

impl DataPluginHandler {
    /// The conversation with the data plugin `name`, at its start. The first
    /// thing to do is to read a message.
    pub fn new(name: String) -> (start: (Self, DataAction))
        ensures
            start.0@ == (DataPluginHandlerView {
                name: name@,
                stage: DataStage::AwaitingInit,
                wants_image: false,
                dependencies: Seq::empty(),
                source: Seq::empty(),
                timestamp: 0,
            }),
            start.1@ == DataActionView::Receive,
    {
        let handler = DataPluginHandler {
            name,
            stage: DataStage::AwaitingInit,
            wants_image: false,
            dependencies: Vec::new(),
            source: String::new(),
            timestamp: 0,
        };
        assert(dependencies_of(handler.dependencies@) =~= Seq::empty());
        (handler, DataAction::Receive)
    }

    /// Where the conversation stands.
    pub fn stage(&self) -> (stage: DataStage)
        ensures
            stage == self@.stage,
    {
        self.stage
    }

    /// The document that carries the history that the plugin asked for, for
    /// a frame of `source`.
    pub fn collect_plugin_data(&self, store: &DataManager, source: &String) -> (document:
        bson::Document)
        ensures
            entries_of(document) == dependency_entries(store@, source@, self@.dependencies),
    {
        collect_dependencies(store, source, &self.dependencies)
    }

    fn fail(self, error: ProtocolError) -> (next: (Self, DataAction))
        ensures
            (next.0@, next.1@) == failed(self@, error),
    {
        (DataPluginHandler { stage: DataStage::Failed, ..self }, DataAction::Abort(error))
    }

    fn on_init(self, bytes: Vec<u8>) -> (next: (Self, DataAction))
        requires
            self@.stage == DataStage::AwaitingInit,
        ensures
            (next.0@, next.1@) == data_step(self@, DataEventView::Message(bytes@), Map::empty()),
    {
        let document = match message_document(&bytes) {
            Ok(document) => document,
            Err(e) => {
                return self.fail(e);
            },
        };
        match read_init(&document) {
            Ok((wants_image, dependencies)) => (
                DataPluginHandler {
                    stage: DataStage::AwaitingImage,
                    wants_image,
                    dependencies,
                    ..self
                },
                DataAction::NextImage,
            ),
            Err(e) => self.fail(e),
        }
    }

    fn on_image(self, image: Image, store: &DataManager) -> (next: (Self, DataAction))
        requires
            self@.stage == DataStage::AwaitingImage,
        ensures
            (next.0@, next.1@) == data_step(self@, DataEventView::Image(image@), store@),
    {
        let history = self.collect_plugin_data(store, &image.input_source);
        let mut bytes = match document_message(&history) {
            Ok(bytes) => bytes,
            Err(e) => {
                return self.fail(e);
            },
        };
        let source = image.input_source.clone();
        let timestamp = image.timestamp;
        let ghost described = image@;
        let mut second = match document_message(&image.into_document(self.wants_image)) {
            Ok(second) => second,
            Err(e) => {
                return self.fail(e);
            },
        };
        bytes.append(&mut second);
        assert(Some(bytes@) == frame_messages(self@, described, store@));
        (
            DataPluginHandler { stage: DataStage::Sending, source, timestamp, ..self },
            DataAction::Send(bytes),
        )
    }

    fn on_result(self, bytes: Vec<u8>) -> (next: (Self, DataAction))
        requires
            self@.stage == DataStage::AwaitingResult,
        ensures
            (next.0@, next.1@) == data_step(self@, DataEventView::Message(bytes@), Map::empty()),
    {
        let document = match message_document(&bytes) {
            Ok(document) => document,
            Err(e) => {
                return self.fail(e);
            },
        };
        let datum = Datum {
            producer: self.name.clone(),
            source: self.source.clone(),
            timestamp: self.timestamp,
            value: document_value(document),
        };
        (DataPluginHandler { stage: DataStage::Forwarding, ..self }, DataAction::Forward(datum))
    }

    /// Takes an event and says what to do next. The history is read when a
    /// frame arrives, and only then.
    pub fn handle(self, event: DataEvent, store: &DataManager) -> (next: (Self, DataAction))
        ensures
            (next.0@, next.1@) == data_step(self@, event@, store@),
    {
        match (self.stage, event) {
            (DataStage::AwaitingInit, DataEvent::Message(bytes)) => self.on_init(bytes),
            (DataStage::AwaitingImage, DataEvent::Image(image)) => self.on_image(image, store),
            (DataStage::Sending, DataEvent::Sent) => (
                DataPluginHandler { stage: DataStage::AwaitingResult, ..self },
                DataAction::Receive,
            ),
            (DataStage::AwaitingResult, DataEvent::Message(bytes)) => self.on_result(bytes),
            (DataStage::Forwarding, DataEvent::Forwarded) => (
                DataPluginHandler { stage: DataStage::AwaitingImage, ..self },
                DataAction::NextImage,
            ),
            _ => self.fail(ProtocolError::UnexpectedEvent),
        }
    }
}

/// Plans the data plugins, in configuration order: their ports follow those
/// of the input plugins.
pub fn start(cfg: &Config) -> (plugins: Result<Vec<Plugin>, ConfigError>)
    ensures
        match plugins {
            Ok(planned_plugins) => {
                &&& planned_plugins.len() == cfg.data_plugins.len()
                &&& forall|i: int|
                    0 <= i < planned_plugins.len() ==> #[trigger] plan_at(
                        *cfg,
                        PluginKind::Data,
                        i,
                    ) == Ok::<PluginView, ConfigError>(planned_plugins[i]@)
            },
            Err(e) => exists|i: int|
                {
                    &&& 0 <= i < cfg.data_plugins.len()
                    &&& #[trigger] plan_at(*cfg, PluginKind::Data, i) == Err::<
                        PluginView,
                        ConfigError,
                    >(e)
                    &&& forall|k: int|
                        0 <= k < i ==> (#[trigger] plan_at(*cfg, PluginKind::Data, k)).is_ok()
                },
        },
{
    plan(cfg, PluginKind::Data)
}

} // verus!
