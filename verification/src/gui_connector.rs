//! The mirror of frames and data for one observer.
//!
//! At most one observer is attached at a time. While one is, the frames and
//! data that the scheduler mirrors are gathered into batches, and each batch
//! is sent as one document. When sending fails the observer is detached and
//! the next one is awaited.
//!
//! [`GuiConnector`] decides what to do next on each event. Accepting the
//! observer, polling the mirror queues and writing the connection are the
//! caller's business.

use crate::config::Config;
use crate::data_plugins::{Datum, DatumView};
use crate::document::{
    array_value, binary_value, datetime_value, entries_of, insert_field, lemma_put_new,
    new_document, node_of, nodes_of, text_value, Entries, Node,
};
use crate::image::{Image, ImageView};
use crate::plugin::{address_of, listener_address};
use crate::protocol::{document_message, message_of};
use vstd::prelude::*;

verus! {

/// How many frames, and how many data, may wait for the observer. What
/// arrives beyond that is dropped.
pub const GUI_QUEUE_CAPACITY: usize = 10;

/// How long to wait, in milliseconds, for the next frame or datum of a batch.
pub const GUI_POLL_MILLIS: u64 = 5;

/// Where the mirror stands.
#[derive(Debug, Clone, Copy, PartialEq, Eq)]
pub enum GuiStage {
    /// No observer is attached; one is awaited.
    Accepting,
    /// The frames of the next batch are being gathered.
    DrainingImages,
    /// The data of the next batch are being gathered.
    DrainingData,
    /// A batch is being sent.
    Sending,
}

/// What happened.
#[derive(Debug)]
pub enum GuiEvent {
    /// An observer connected.
    Connected,
    /// A mirrored frame was waiting.
    Image(Image),
    /// A mirrored datum was waiting.
    Datum(Datum),
    /// Nothing arrived in time.
    Timeout,
    /// The bytes were written.
    Sent,
    /// Writing failed.
    Failed,
}

/// What an event holds.
pub enum GuiEventView {
    Connected,
    Image(ImageView),
    Datum(DatumView),
    Timeout,
    Sent,
    Failed,
}

impl View for GuiEvent {
    type V = GuiEventView;

    open spec fn view(&self) -> GuiEventView {
        match *self {
            GuiEvent::Connected => GuiEventView::Connected,
            GuiEvent::Image(image) => GuiEventView::Image(image@),
            GuiEvent::Datum(datum) => GuiEventView::Datum(datum@),
            GuiEvent::Timeout => GuiEventView::Timeout,
            GuiEvent::Sent => GuiEventView::Sent,
            GuiEvent::Failed => GuiEventView::Failed,
        }
    }
}

/// What to do next.
#[derive(Debug, PartialEq, Eq)]
pub enum GuiAction {
    /// Wait for an observer to connect.
    Accept,
    /// Wait briefly for a mirrored frame.
    PollImage,
    /// Wait briefly for a mirrored datum.
    PollDatum,
    /// Write these bytes to the observer.
    Send(Vec<u8>),
}

/// What an action holds.
pub enum GuiActionView {
    Accept,
    PollImage,
    PollDatum,
    Send(Seq<u8>),
}

impl View for GuiAction {
    type V = GuiActionView;

    open spec fn view(&self) -> GuiActionView {
        match *self {
            GuiAction::Accept => GuiActionView::Accept,
            GuiAction::PollImage => GuiActionView::PollImage,
            GuiAction::PollDatum => GuiActionView::PollDatum,
            GuiAction::Send(bytes) => GuiActionView::Send(bytes@),
        }
    }
}

/// The mirror for one observer at a time.
pub struct GuiConnector {
    stage: GuiStage,
    images: Vec<bson::Bson>,
    data: Vec<bson::Bson>,
}

/// What the mirror holds.
pub struct GuiConnectorView {
    pub stage: GuiStage,
    /// The frames gathered for the next batch, as they will be sent.
    pub images: Seq<Node>,
    /// The data gathered for the next batch, as they will be sent.
    pub data: Seq<Node>,
}

impl View for GuiConnector {
    type V = GuiConnectorView;

    closed spec fn view(&self) -> GuiConnectorView {
        GuiConnectorView {
            stage: self.stage,
            images: nodes_of(self.images@),
            data: nodes_of(self.data@),
        }
    }
}

/// A frame as the observer gets it: timestamp, source, payload.
pub open spec fn image_row(image: ImageView) -> Node {
    Node::Array(
        seq![
            Node::DateTime(image.timestamp),
            Node::Text(image.input_source),
            Node::Binary(image.data),
        ],
    )
}

/// A datum as the observer gets it: producer, timestamp, value.
pub open spec fn datum_row(datum: DatumView) -> Node {
    Node::Array(seq![Node::Text(datum.producer), Node::DateTime(datum.timestamp), datum.value])
}

/// The fields of the document that carries one batch.
pub open spec fn batch_entries(images: Seq<Node>, data: Seq<Node>) -> Entries {
    seq![("images"@, Node::Array(images)), ("data"@, Node::Array(data))]
}

/// The mirror with nothing gathered, at the given stage.
pub open spec fn emptied(stage: GuiStage) -> GuiConnectorView {
    GuiConnectorView { stage, images: Seq::empty(), data: Seq::empty() }
}

/// The mirror after an event, and what to do next. Whatever does not fit
/// the stage ends the session, as a failure to write does.
pub open spec fn gui_step(connector: GuiConnectorView, event: GuiEventView) -> (
    GuiConnectorView,
    GuiActionView,
) {
    match (connector.stage, event) {
        (GuiStage::Accepting, GuiEventView::Connected) => (
            emptied(GuiStage::DrainingImages),
            GuiActionView::PollImage,
        ),
        (GuiStage::DrainingImages, GuiEventView::Image(image)) => (
            GuiConnectorView { images: connector.images.push(image_row(image)), ..connector },
            GuiActionView::PollImage,
        ),
        (GuiStage::DrainingImages, GuiEventView::Timeout) => (
            GuiConnectorView { stage: GuiStage::DrainingData, ..connector },
            GuiActionView::PollDatum,
        ),
        (GuiStage::DrainingData, GuiEventView::Datum(datum)) => (
            GuiConnectorView { data: connector.data.push(datum_row(datum)), ..connector },
            GuiActionView::PollDatum,
        ),
        (GuiStage::DrainingData, GuiEventView::Timeout) => match message_of(
            batch_entries(connector.images, connector.data),
        ) {
            Some(bytes) => (emptied(GuiStage::Sending), GuiActionView::Send(bytes)),
            None => (emptied(GuiStage::Accepting), GuiActionView::Accept),
        },
        (GuiStage::Sending, GuiEventView::Sent) => (
            emptied(GuiStage::DrainingImages),
            GuiActionView::PollImage,
        ),
        _ => (emptied(GuiStage::Accepting), GuiActionView::Accept),
    }
}

fn image_value(image: Image) -> (row: bson::Bson)
    ensures
        node_of(row) == image_row(image@),
{
    let ghost held = image@;
    let mut fields: Vec<bson::Bson> = Vec::new();
    fields.push(datetime_value(image.timestamp));
    fields.push(text_value(image.input_source));
    fields.push(binary_value(image.data));
    assert(nodes_of(fields@) =~= seq![
        Node::DateTime(held.timestamp),
        Node::Text(held.input_source),
        Node::Binary(held.data),
    ]);
    array_value(fields)
}

fn datum_value(datum: Datum) -> (row: bson::Bson)
    ensures
        node_of(row) == datum_row(datum@),
{
    let ghost held = datum@;
    let mut fields: Vec<bson::Bson> = Vec::new();
    fields.push(text_value(datum.producer));
    fields.push(datetime_value(datum.timestamp));
    fields.push(datum.value);
    assert(nodes_of(fields@) =~= seq![
        Node::Text(held.producer),
        Node::DateTime(held.timestamp),
        held.value,
    ]);
    array_value(fields)
}

/// The document that carries one batch of frames and data.
pub fn batch_document(images: Vec<bson::Bson>, data: Vec<bson::Bson>) -> (document:
    bson::Document)
    ensures
        entries_of(document) == batch_entries(nodes_of(images@), nodes_of(data@)),
{
    proof {
        reveal_strlit("images");
        reveal_strlit("data");
        assert("images"@.len() == 6 && "data"@.len() == 4);
    }
    let ghost image_nodes = Node::Array(nodes_of(images@));
    let ghost data_nodes = Node::Array(nodes_of(data@));
    let mut document = new_document();
    proof {
        lemma_put_new(entries_of(document), "images"@, image_nodes);
    }
    insert_field(&mut document, "images", array_value(images));
    proof {
        lemma_put_new(entries_of(document), "data"@, data_nodes);
    }
    insert_field(&mut document, "data", array_value(data));
    assert(entries_of(document) =~= batch_entries(nodes_of(images@), nodes_of(data@)));
    document
}

impl GuiConnector {
    /// The mirror before any observer has connected. The first thing to do
    /// is to wait for one.
    pub fn new() -> (start: (Self, GuiAction))
        ensures
            start.0@ == emptied(GuiStage::Accepting),
            start.1@ == GuiActionView::Accept,
    {
        (GuiConnector::fresh(GuiStage::Accepting), GuiAction::Accept)
    }

    fn fresh(stage: GuiStage) -> (connector: Self)
        ensures
            connector@ == emptied(stage),
    {
        let connector = GuiConnector { stage, images: Vec::new(), data: Vec::new() };
        assert(nodes_of(connector.images@) =~= Seq::empty());
        assert(nodes_of(connector.data@) =~= Seq::empty());
        connector
    }

    /// Whether an observer is attached.
    pub fn attached(&self) -> (attached: bool)
        ensures
            attached == (self@.stage != GuiStage::Accepting),
    {
        match self.stage {
            GuiStage::Accepting => false,
            _ => true,
        }
    }

    /// Takes an event and says what to do next.
    pub fn handle(self, event: GuiEvent) -> (next: (Self, GuiAction))
        ensures
            (next.0@, next.1@) == gui_step(self@, event@),
    {
        match (self.stage, event) {
            (GuiStage::Accepting, GuiEvent::Connected) => (
                GuiConnector::fresh(GuiStage::DrainingImages),
                GuiAction::PollImage,
            ),
            (GuiStage::DrainingImages, GuiEvent::Image(image)) => {
                let ghost before = nodes_of(self.images@);
                let ghost added = image_row(image@);
                let mut images = self.images;
                images.push(image_value(image));
                assert(nodes_of(images@) =~= before.push(added));
                (GuiConnector { images, ..self }, GuiAction::PollImage)
            },
            (GuiStage::DrainingImages, GuiEvent::Timeout) => (
                GuiConnector { stage: GuiStage::DrainingData, ..self },
                GuiAction::PollDatum,
            ),
            (GuiStage::DrainingData, GuiEvent::Datum(datum)) => {
                let ghost before = nodes_of(self.data@);
                let ghost added = datum_row(datum@);
                let mut data = self.data;
                data.push(datum_value(datum));
                assert(nodes_of(data@) =~= before.push(added));
                (GuiConnector { data, ..self }, GuiAction::PollDatum)
            },
            (GuiStage::DrainingData, GuiEvent::Timeout) => {
                let document = batch_document(self.images, self.data);
                match document_message(&document) {
                    Ok(bytes) => (GuiConnector::fresh(GuiStage::Sending), GuiAction::Send(bytes)),
                    Err(_) => (GuiConnector::fresh(GuiStage::Accepting), GuiAction::Accept),
                }
            },
            (GuiStage::Sending, GuiEvent::Sent) => (
                GuiConnector::fresh(GuiStage::DrainingImages),
                GuiAction::PollImage,
            ),
            _ => (GuiConnector::fresh(GuiStage::Accepting), GuiAction::Accept),
        }
    }
}

/// Plans the mirror: the address on which observers are awaited, and the
/// mirror itself with the first thing to do. No observer is attached at the
/// start, and none is until one has connected.
pub fn start(cfg: &Config) -> (mirror: (String, GuiConnector, GuiAction))
    ensures
        mirror.0@ == address_of(cfg.bind_addr@, cfg.bind_port_gui),
        mirror.1@ == emptied(GuiStage::Accepting),
        mirror.2@ == GuiActionView::Accept,
{
    let address = listener_address(&cfg.bind_addr, cfg.bind_port_gui);
    let (connector, action) = GuiConnector::new();
    (address, connector, action)
}

/// An observer is attached only after one has connected: from the stage in
/// which one is awaited, every other event leaves the mirror waiting.
pub proof fn lemma_attached_only_once_connected(connector: GuiConnectorView, event: GuiEventView)
    requires
        connector.stage == GuiStage::Accepting,
    ensures
        gui_step(connector, event).0.stage != GuiStage::Accepting <==> event is Connected,
{
}

/// While no observer is attached the mirror holds nothing: whatever leaves
/// it without an observer leaves it empty, and it stays empty until one
/// connects.
pub proof fn lemma_unattached_holds_nothing(connector: GuiConnectorView, event: GuiEventView)
    ensures
        gui_step(connector, event).0.stage == GuiStage::Accepting ==> gui_step(connector, event).0
            == emptied(GuiStage::Accepting),
        connector == emptied(GuiStage::Accepting) && !(event is Connected) ==> gui_step(
            connector,
            event,
        ).0 == connector,
{
}

} // verus!
