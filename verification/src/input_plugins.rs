//! The conversation with one input plugin.
//!
//! The core asks for a frame by sending one byte. The plugin answers with a
//! mode: 0 when it has nothing, upon which the core pauses before it asks
//! again, or 1 followed by one message that holds the frame. Any other mode
//! breaks the protocol.
//!
//! [`InputPluginHandler`] decides what to do next on each event. Reading and
//! writing the connection, pausing and handing frames on are the caller's
//! business.

use crate::config::{Config, ConfigError};
use crate::image::{now_millis, Image, ImageView};
use crate::plugin::{plan, plan_at, Plugin, PluginKind, PluginView};
use crate::protocol::ProtocolError;
use vstd::prelude::*;

verus! {

/// The byte that asks an input plugin for a frame: the letter `i`.
pub const FRAME_REQUEST: u8 = 0x69;

/// How long to pause, in milliseconds, when an input plugin has nothing.
pub const IDLE_MILLIS: u64 = 1000;

/// Where a conversation stands.
#[derive(Debug, Clone, Copy, PartialEq, Eq)]
pub enum InputStage {
    /// The request for a frame is being written.
    Requesting,
    /// The plugin's mode is awaited.
    AwaitingMode,
    /// The plugin had nothing; the pause is running.
    Idling,
    /// The message with the frame is awaited.
    AwaitingFrame,
    /// The frame is being handed on.
    Emitting,
    /// The conversation has failed.
    Failed,
}

/// What happened.
#[derive(Debug)]
pub enum InputEvent {
    /// The bytes were written.
    Sent,
    /// The plugin answered with a mode.
    Mode(u32),
    /// The pause is over.
    Slept,
    /// The message with the frame arrived.
    Frame(Vec<u8>),
    /// The frame was handed on.
    Emitted,
}

/// What an event holds.
pub enum InputEventView {
    Sent,
    Mode(u32),
    Slept,
    Frame(Seq<u8>),
    Emitted,
}

impl View for InputEvent {
    type V = InputEventView;

    open spec fn view(&self) -> InputEventView {
        match *self {
            InputEvent::Sent => InputEventView::Sent,
            InputEvent::Mode(mode) => InputEventView::Mode(mode),
            InputEvent::Slept => InputEventView::Slept,
            InputEvent::Frame(payload) => InputEventView::Frame(payload@),
            InputEvent::Emitted => InputEventView::Emitted,
        }
    }
}

/// What to do next.
#[derive(Debug, PartialEq, Eq)]
pub enum InputAction {
    /// Write these bytes to the plugin.
    Send(Vec<u8>),
    /// Read one little-endian 32-bit mode from the plugin.
    ReadMode,
    /// Pause for so many milliseconds.
    Sleep(u64),
    /// Read one message from the plugin.
    ReadFrame,
    /// Hand the frame on to the scheduler.
    Emit(Image),
    /// Give the connection up.
    Abort(ProtocolError),
}

/// What an action holds.
pub enum InputActionView {
    Send(Seq<u8>),
    ReadMode,
    Sleep(u64),
    ReadFrame,
    Emit(ImageView),
    Abort(ProtocolError),
}

impl View for InputAction {
    type V = InputActionView;

    open spec fn view(&self) -> InputActionView {
        match *self {
            InputAction::Send(bytes) => InputActionView::Send(bytes@),
            InputAction::ReadMode => InputActionView::ReadMode,
            InputAction::Sleep(millis) => InputActionView::Sleep(millis),
            InputAction::ReadFrame => InputActionView::ReadFrame,
            InputAction::Emit(image) => InputActionView::Emit(image@),
            InputAction::Abort(e) => InputActionView::Abort(e),
        }
    }
}

/// The conversation with one input plugin.
pub struct InputPluginHandler {
    name: String,
    stage: InputStage,
}

/// What a conversation holds.
pub struct InputPluginHandlerView {
    /// The input plugin.
    pub name: Seq<char>,
    pub stage: InputStage,
}

impl View for InputPluginHandler {
    type V = InputPluginHandlerView;

    closed spec fn view(&self) -> InputPluginHandlerView {
        InputPluginHandlerView { name: self.name@, stage: self.stage }
    }
}

/// The request for a frame.
pub open spec fn request() -> InputActionView {
    InputActionView::Send(seq![FRAME_REQUEST])
}

/// The conversation after an event that arrives at the time `now`, and what
/// to do next. The time matters only where a frame arrives: it becomes the
/// frame's timestamp.
pub open spec fn input_step(handler: InputPluginHandlerView, event: InputEventView, now: i64) -> (
    InputPluginHandlerView,
    InputActionView,
) {
    match (handler.stage, event) {
        (InputStage::Requesting, InputEventView::Sent) => (
            InputPluginHandlerView { stage: InputStage::AwaitingMode, ..handler },
            InputActionView::ReadMode,
        ),
        (InputStage::AwaitingMode, InputEventView::Mode(mode)) => if mode == 0 {
            (
                InputPluginHandlerView { stage: InputStage::Idling, ..handler },
                InputActionView::Sleep(IDLE_MILLIS),
            )
        } else if mode == 1 {
            (
                InputPluginHandlerView { stage: InputStage::AwaitingFrame, ..handler },
                InputActionView::ReadFrame,
            )
        } else {
            (
                InputPluginHandlerView { stage: InputStage::Failed, ..handler },
                InputActionView::Abort(ProtocolError::UnexpectedMode(mode)),
            )
        },
        (InputStage::Idling, InputEventView::Slept) => (
            InputPluginHandlerView { stage: InputStage::Requesting, ..handler },
            request(),
        ),
        (InputStage::AwaitingFrame, InputEventView::Frame(payload)) => (
            InputPluginHandlerView { stage: InputStage::Emitting, ..handler },
            InputActionView::Emit(
                ImageView { data: payload, timestamp: now, input_source: handler.name },
            ),
        ),
        (InputStage::Emitting, InputEventView::Emitted) => (
            InputPluginHandlerView { stage: InputStage::Requesting, ..handler },
            request(),
        ),
        _ => (
            InputPluginHandlerView { stage: InputStage::Failed, ..handler },
            InputActionView::Abort(ProtocolError::UnexpectedEvent),
        ),
    }
}

fn request_bytes() -> (bytes: Vec<u8>)
    ensures
        InputActionView::Send(bytes@) == request(),
{
    let mut bytes: Vec<u8> = Vec::new();
    bytes.push(FRAME_REQUEST);
    assert(bytes@ =~= seq![FRAME_REQUEST]);
    bytes
}

impl InputPluginHandler {
    /// The conversation with the input plugin `name`, at its start. The
    /// first thing to do is to ask for a frame.
    pub fn new(name: String) -> (start: (Self, InputAction))
        ensures
            start.0@ == (InputPluginHandlerView { name: name@, stage: InputStage::Requesting }),
            start.1@ == request(),
    {
        (
            InputPluginHandler { name, stage: InputStage::Requesting },
            InputAction::Send(request_bytes()),
        )
    }

    /// Where the conversation stands.
    pub fn stage(&self) -> (stage: InputStage)
        ensures
            stage == self@.stage,
    {
        self.stage
    }

    /// Takes an event that arrives at the time `now`, in milliseconds since
    /// the Unix epoch, and says what to do next.
    pub fn handle_at(self, event: InputEvent, now: i64) -> (next: (Self, InputAction))
        ensures
            (next.0@, next.1@) == input_step(self@, event@, now),
    {
        match (self.stage, event) {
            (InputStage::Requesting, InputEvent::Sent) => (
                InputPluginHandler { stage: InputStage::AwaitingMode, ..self },
                InputAction::ReadMode,
            ),
            (InputStage::AwaitingMode, InputEvent::Mode(mode)) => {
                if mode == 0 {
                    (
                        InputPluginHandler { stage: InputStage::Idling, ..self },
                        InputAction::Sleep(IDLE_MILLIS),
                    )
                } else if mode == 1 {
                    (
                        InputPluginHandler { stage: InputStage::AwaitingFrame, ..self },
                        InputAction::ReadFrame,
                    )
                } else {
                    (
                        InputPluginHandler { stage: InputStage::Failed, ..self },
                        InputAction::Abort(ProtocolError::UnexpectedMode(mode)),
                    )
                }
            },
            (InputStage::Idling, InputEvent::Slept) => (
                InputPluginHandler { stage: InputStage::Requesting, ..self },
                InputAction::Send(request_bytes()),
            ),
            (InputStage::AwaitingFrame, InputEvent::Frame(payload)) => {
                let image = Image::received_at(payload, now, self.name.clone());
                (
                    InputPluginHandler { stage: InputStage::Emitting, ..self },
                    InputAction::Emit(image),
                )
            },
            (InputStage::Emitting, InputEvent::Emitted) => (
                InputPluginHandler { stage: InputStage::Requesting, ..self },
                InputAction::Send(request_bytes()),
            ),
            _ => (
                InputPluginHandler { stage: InputStage::Failed, ..self },
                InputAction::Abort(ProtocolError::UnexpectedEvent),
            ),
        }
    }

    /// Takes an event that arrives now and says what to do next.
    pub fn handle(self, event: InputEvent) -> (next: (Self, InputAction))
        ensures
            exists|now: i64| (next.0@, next.1@) == input_step(self@, event@, now),
    {
        let now = now_millis();
        let ghost before = self@;
        let ghost happened = event@;
        let next = self.handle_at(event, now);
        assert((next.0@, next.1@) == input_step(before, happened, now));
        next
    }
}

/// Plans the input plugins, in configuration order: they take the first
/// ports of the range.
pub fn start(cfg: &Config) -> (plugins: Result<Vec<Plugin>, ConfigError>)
    ensures
        match plugins {
            Ok(planned_plugins) => {
                &&& planned_plugins.len() == cfg.input_plugins.len()
                &&& forall|i: int|
                    0 <= i < planned_plugins.len() ==> #[trigger] plan_at(
                        *cfg,
                        PluginKind::Input,
                        i,
                    ) == Ok::<PluginView, ConfigError>(planned_plugins[i]@)
            },
            Err(e) => exists|i: int|
                {
                    &&& 0 <= i < cfg.input_plugins.len()
                    &&& #[trigger] plan_at(*cfg, PluginKind::Input, i) == Err::<
                        PluginView,
                        ConfigError,
                    >(e)
                    &&& forall|k: int|
                        0 <= k < i ==> (#[trigger] plan_at(*cfg, PluginKind::Input, k)).is_ok()
                },
        },
{
    plan(cfg, PluginKind::Input)
}

} // verus!
