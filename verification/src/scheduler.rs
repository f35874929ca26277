//! The dispatch schedule: every frame goes to every data plugin, and every
//! data plugin answers, before the next frame is taken.
//!
//! One round of the schedule checks that all plugins are alive and then polls
//! each input in turn. A frame that arrives is sent to the data plugins in
//! their order; then one datum is taken from each, in the same order, and
//! appended to the history. While an observer is attached, the frame and each
//! datum are mirrored to it as well.
//!
//! [`Scheduler`] decides what to do next on each event. The channels, the
//! history and the plugins themselves are the caller's business.

use crate::data_plugins::{Datum, DatumView};
use crate::image::{Image, ImageView};
use crate::plugin::Plugin;
use vstd::prelude::*;

verus! {

/// How long to wait, in milliseconds, for a frame from one input.
pub const POLL_MILLIS: u64 = 5;

/// Why the schedule stopped.
#[derive(Debug, Clone, Copy, PartialEq, Eq)]
pub enum SchedulerError {
    /// A plugin's socket thread or process has stopped.
    PluginStopped,
    /// A channel to or from a plugin is closed.
    ChannelClosed,
    /// An event arrived that does not answer what was asked for.
    UnexpectedEvent,
}

/// Where the schedule stands: what was asked for last.
#[derive(Debug, Clone, Copy, PartialEq, Eq)]
pub enum SchedulerStage {
    /// The plugins are being checked.
    Guarding,
    /// The input of this number is being polled.
    Polling { input: usize },
    /// The frame is being sent to the data plugin of this number.
    Sending { input: usize, plugin: usize },
    /// The frame is being mirrored.
    MirroringFrame { input: usize },
    /// The datum of the data plugin of this number is awaited.
    Collecting { input: usize, plugin: usize },
    /// That datum is being mirrored.
    MirroringDatum { input: usize, plugin: usize },
    /// That datum is being appended to the history.
    Appending { input: usize, plugin: usize },
    /// The schedule has stopped.
    Stopped,
}

/// What happened.
#[derive(Debug)]
pub enum SchedulerEvent {
    /// The plugins were checked: are all of them running?
    PluginsChecked(bool),
    /// The input had no frame in time.
    Timeout,
    /// The input had a frame.
    Frame(Image),
    /// What was asked for is done.
    Done,
    /// The data plugin returned its datum.
    Datum(Datum),
    /// A channel is closed.
    Failed,
}

/// What an event holds.
pub enum SchedulerEventView {
    PluginsChecked(bool),
    Timeout,
    Frame(ImageView),
    Done,
    Datum(DatumView),
    Failed,
}

impl View for SchedulerEvent {
    type V = SchedulerEventView;

    open spec fn view(&self) -> SchedulerEventView {
        match *self {
            SchedulerEvent::PluginsChecked(running) => SchedulerEventView::PluginsChecked(running),
            SchedulerEvent::Timeout => SchedulerEventView::Timeout,
            SchedulerEvent::Frame(frame) => SchedulerEventView::Frame(frame@),
            SchedulerEvent::Done => SchedulerEventView::Done,
            SchedulerEvent::Datum(datum) => SchedulerEventView::Datum(datum@),
            SchedulerEvent::Failed => SchedulerEventView::Failed,
        }
    }
}

/// What to do next.
#[derive(Debug, PartialEq)]
pub enum SchedulerAction {
    /// Check that every plugin is still running.
    CheckPlugins,
    /// Wait briefly for a frame from the input of this number.
    PollInput(usize),
    /// Send this copy of the frame to the data plugin of this number, and
    /// wait until it is taken.
    SendFrame(usize, Image),
    /// Offer the frame to the observer; drop it where there is no room.
    MirrorFrame(Image),
    /// Wait for the datum of the data plugin of this number.
    RecvDatum(usize),
    /// Offer this copy of the datum to the observer; drop it where there is
    /// no room.
    MirrorDatum(Datum),
    /// Append the datum to the history.
    Append(Datum),
    /// Stop everything.
    Abort(SchedulerError),
}

/// What an action holds.
pub enum SchedulerActionView {
    CheckPlugins,
    PollInput(usize),
    SendFrame(usize, ImageView),
    MirrorFrame(ImageView),
    RecvDatum(usize),
    MirrorDatum(DatumView),
    Append(DatumView),
    Abort(SchedulerError),
}

impl View for SchedulerAction {
    type V = SchedulerActionView;

    open spec fn view(&self) -> SchedulerActionView {
        match *self {
            SchedulerAction::CheckPlugins => SchedulerActionView::CheckPlugins,
            SchedulerAction::PollInput(input) => SchedulerActionView::PollInput(input),
            SchedulerAction::SendFrame(plugin, frame) => SchedulerActionView::SendFrame(
                plugin,
                frame@,
            ),
            SchedulerAction::MirrorFrame(frame) => SchedulerActionView::MirrorFrame(frame@),
            SchedulerAction::RecvDatum(plugin) => SchedulerActionView::RecvDatum(plugin),
            SchedulerAction::MirrorDatum(datum) => SchedulerActionView::MirrorDatum(datum@),
            SchedulerAction::Append(datum) => SchedulerActionView::Append(datum@),
            SchedulerAction::Abort(e) => SchedulerActionView::Abort(e),
        }
    }
}

/// What the schedule holds.
pub struct SchedulerView {
    /// The number of inputs.
    pub inputs: usize,
    /// The number of data plugins.
    pub data: usize,
    pub stage: SchedulerStage,
    /// The frame that is being sent out, while it is.
    pub frame: Option<ImageView>,
    /// The datum that is being mirrored, while it is.
    pub datum: Option<DatumView>,
}

/// The numbers in the stage are those of an input and a data plugin, and
/// what the stage works on is held.
pub open spec fn well_formed(s: SchedulerView) -> bool {
    match s.stage {
        SchedulerStage::Guarding => true,
        SchedulerStage::Polling { input } => input < s.inputs,
        SchedulerStage::Sending { input, plugin } => input < s.inputs && plugin < s.data
            && s.frame.is_some(),
        SchedulerStage::MirroringFrame { input } => input < s.inputs,
        SchedulerStage::Collecting { input, plugin } => input < s.inputs && plugin < s.data,
        SchedulerStage::MirroringDatum { input, plugin } => input < s.inputs && plugin < s.data
            && s.datum.is_some(),
        SchedulerStage::Appending { input, plugin } => input < s.inputs && plugin < s.data,
        SchedulerStage::Stopped => true,
    }
}

/// The schedule at a stage, with nothing held.
pub open spec fn at_stage(s: SchedulerView, stage: SchedulerStage) -> SchedulerView {
    SchedulerView { stage, frame: None, datum: None, ..s }
}

/// The schedule after it stopped.
pub open spec fn stopped(s: SchedulerView, error: SchedulerError) -> (
    SchedulerView,
    SchedulerActionView,
) {
    (at_stage(s, SchedulerStage::Stopped), SchedulerActionView::Abort(error))
}

/// What follows once an input has been served: the next input is polled,
/// or, after the last one, a new round starts with the check of the plugins.
pub open spec fn after_input(s: SchedulerView, input: usize) -> (
    SchedulerView,
    SchedulerActionView,
) {
    if input + 1 < s.inputs {
        (
            at_stage(s, SchedulerStage::Polling { input: (input + 1) as usize }),
            SchedulerActionView::PollInput((input + 1) as usize),
        )
    } else {
        (at_stage(s, SchedulerStage::Guarding), SchedulerActionView::CheckPlugins)
    }
}

/// What follows once the frame is out: the data are collected, starting
/// with the first data plugin.
pub open spec fn after_fan_out(s: SchedulerView, input: usize) -> (
    SchedulerView,
    SchedulerActionView,
) {
    if s.data > 0 {
        (
            at_stage(s, SchedulerStage::Collecting { input, plugin: 0 }),
            SchedulerActionView::RecvDatum(0),
        )
    } else {
        after_input(s, input)
    }
}

/// The schedule after an event, and what to do next. `attached` says
/// whether an observer is attached at this moment.
pub open spec fn scheduler_step(s: SchedulerView, event: SchedulerEventView, attached: bool) -> (
    SchedulerView,
    SchedulerActionView,
) {
    match (s.stage, event) {
        (SchedulerStage::Guarding, SchedulerEventView::PluginsChecked(running)) => if !running {
            stopped(s, SchedulerError::PluginStopped)
        } else if s.inputs > 0 {
            (
                at_stage(s, SchedulerStage::Polling { input: 0 }),
                SchedulerActionView::PollInput(0),
            )
        } else {
            (at_stage(s, SchedulerStage::Guarding), SchedulerActionView::CheckPlugins)
        },
        (SchedulerStage::Polling { input }, SchedulerEventView::Timeout) => after_input(s, input),
        (SchedulerStage::Polling { input }, SchedulerEventView::Frame(frame)) => if s.data > 0 {
            (
                SchedulerView {
                    stage: SchedulerStage::Sending { input, plugin: 0 },
                    frame: Some(frame),
                    datum: None,
                    ..s
                },
                SchedulerActionView::SendFrame(0, frame),
            )
        } else if attached {
            (
                at_stage(s, SchedulerStage::MirroringFrame { input }),
                SchedulerActionView::MirrorFrame(frame),
            )
        } else {
            after_input(s, input)
        },
        (SchedulerStage::Sending { input, plugin }, SchedulerEventView::Done) => if plugin + 1
            < s.data {
            (
                SchedulerView {
                    stage: SchedulerStage::Sending { input, plugin: (plugin + 1) as usize },
                    ..s
                },
                SchedulerActionView::SendFrame((plugin + 1) as usize, s.frame.unwrap()),
            )
        } else if attached {
            (
                at_stage(s, SchedulerStage::MirroringFrame { input }),
                SchedulerActionView::MirrorFrame(s.frame.unwrap()),
            )
        } else {
            after_fan_out(s, input)
        },
        (SchedulerStage::MirroringFrame { input }, SchedulerEventView::Done) => after_fan_out(
            s,
            input,
        ),
        (SchedulerStage::Collecting { input, plugin }, SchedulerEventView::Datum(datum)) => if attached {
            (
                SchedulerView {
                    stage: SchedulerStage::MirroringDatum { input, plugin },
                    frame: None,
                    datum: Some(datum),
                    ..s
                },
                SchedulerActionView::MirrorDatum(datum),
            )
        } else {
            (
                at_stage(s, SchedulerStage::Appending { input, plugin }),
                SchedulerActionView::Append(datum),
            )
        },
        (SchedulerStage::MirroringDatum { input, plugin }, SchedulerEventView::Done) => (
            at_stage(s, SchedulerStage::Appending { input, plugin }),
            SchedulerActionView::Append(s.datum.unwrap()),
        ),
        (SchedulerStage::Appending { input, plugin }, SchedulerEventView::Done) => if plugin + 1
            < s.data {
            (
                at_stage(
                    s,
                    SchedulerStage::Collecting { input, plugin: (plugin + 1) as usize },
                ),
                SchedulerActionView::RecvDatum((plugin + 1) as usize),
            )
        } else {
            after_input(s, input)
        },
        (_, SchedulerEventView::Failed) => stopped(s, SchedulerError::ChannelClosed),
        _ => stopped(s, SchedulerError::UnexpectedEvent),
    }
}

/// Whether an action closes the work on a frame: the next input is polled,
/// a new round starts, or everything stops.
pub open spec fn ends_frame(action: SchedulerActionView) -> bool {
    action is PollInput || action is CheckPlugins || action is Abort
}

/// Whether an action is part of the schedule proper. Mirroring is not: it
/// happens only while an observer is attached.
pub open spec fn essential(action: SchedulerActionView) -> bool {
    !(action is MirrorFrame || action is MirrorDatum)
}

/// The essential actions among those of a trace, in order.
pub open spec fn essentials(trace: Seq<SchedulerActionView>) -> Seq<SchedulerActionView>
    decreases trace.len(),
{
    if trace.len() == 0 {
        Seq::empty()
    } else if essential(trace[0]) {
        seq![trace[0]] + essentials(trace.drop_first())
    } else {
        essentials(trace.drop_first())
    }
}

/// The event that answers an action while a frame is worked on: each data
/// plugin returns its result, everything else is simply done.
pub open spec fn answer(action: SchedulerActionView, results: Seq<DatumView>) -> SchedulerEventView {
    match action {
        SchedulerActionView::RecvDatum(plugin) => SchedulerEventView::Datum(results[plugin as int]),
        _ => SchedulerEventView::Done,
    }
}

/// The actions that the schedule asks for, one after the other, from an
/// event on until an action closes the work on the frame, where every action
/// is answered as [`answer`] says. `attached` says at which steps an
/// observer is attached; `at` is the number of the step and `fuel` bounds the
/// number of steps.
pub open spec fn play(
    s: SchedulerView,
    event: SchedulerEventView,
    results: Seq<DatumView>,
    attached: spec_fn(nat) -> bool,
    at: nat,
    fuel: nat,
) -> Seq<SchedulerActionView>
    decreases fuel,
{
    let next = scheduler_step(s, event, attached(at));
    if fuel == 0 || ends_frame(next.1) {
        seq![next.1]
    } else {
        seq![next.1] + play(
            next.0,
            answer(next.1, results),
            results,
            attached,
            at + 1,
            (fuel - 1) as nat,
        )
    }
}

/// One copy of the frame for each data plugin from `from` on, in order.
pub open spec fn sends(frame: ImageView, from: usize, data: usize) -> Seq<SchedulerActionView>
    decreases data - from,
{
    if from >= data {
        Seq::empty()
    } else {
        seq![SchedulerActionView::SendFrame(from, frame)] + sends(
            frame,
            (from + 1) as usize,
            data,
        )
    }
}

/// For each data plugin from `from` on, in order: its datum is awaited and
/// then appended.
pub open spec fn collects(results: Seq<DatumView>, from: usize, data: usize) -> Seq<
    SchedulerActionView,
>
    decreases data - from,
{
    if from >= data {
        Seq::empty()
    } else {
        seq![
            SchedulerActionView::RecvDatum(from),
            SchedulerActionView::Append(results[from as int]),
        ] + collects(results, (from + 1) as usize, data)
    }
}

/// What the schedule does with one frame from the input `input`: it sends
/// one copy to each data plugin, then takes and appends one datum from each,
/// and only then moves on.
pub open spec fn frame_script(
    s: SchedulerView,
    input: usize,
    frame: ImageView,
    results: Seq<DatumView>,
) -> Seq<SchedulerActionView> {
    sends(frame, 0, s.data) + collects(results, 0, s.data) + seq![after_input(s, input).1]
}

proof fn lemma_essentials_first(action: SchedulerActionView, rest: Seq<SchedulerActionView>)
    ensures
        essentials(seq![action] + rest) == if essential(action) {
            seq![action] + essentials(rest)
        } else {
            essentials(rest)
        },
{
    assert((seq![action] + rest).drop_first() =~= rest);
}

proof fn lemma_essentials_last(action: SchedulerActionView)
    ensures
        essentials(seq![action]) == if essential(action) {
            seq![action]
        } else {
            Seq::empty()
        },
{
    reveal_with_fuel(essentials, 2);
    assert(seq![action].drop_first() =~= Seq::<SchedulerActionView>::empty());
    assert(seq![action] + Seq::<SchedulerActionView>::empty() =~= seq![action]);
}

proof fn lemma_collecting(
    s: SchedulerView,
    input: usize,
    plugin: usize,
    results: Seq<DatumView>,
    attached: spec_fn(nat) -> bool,
    at: nat,
    fuel: nat,
)
    requires
        well_formed(s),
        s.stage == (SchedulerStage::Collecting { input, plugin }),
        results.len() == s.data,
        fuel >= 3 * (s.data - plugin),
    ensures
        essentials(
            play(s, SchedulerEventView::Datum(results[plugin as int]), results, attached, at, fuel),
        ) == seq![SchedulerActionView::Append(results[plugin as int])] + collects(
            results,
            (plugin + 1) as usize,
            s.data,
        ) + seq![after_input(s, input).1],
    decreases s.data - plugin,
{
    let datum = results[plugin as int];
    let appended = SchedulerActionView::Append(datum);
    let done = SchedulerEventView::Done;
    let first = scheduler_step(s, SchedulerEventView::Datum(datum), attached(at));
    let trace = play(s, SchedulerEventView::Datum(datum), results, attached, at, fuel);
    // The datum is mirrored where an observer is attached, and appended.
    let appending = at_stage(s, SchedulerStage::Appending { input, plugin });
    let from = if attached(at) {
        at + 2
    } else {
        at + 1
    };
    let left = if attached(at) {
        (fuel - 2) as nat
    } else {
        (fuel - 1) as nat
    };
    let rest = play(appending, done, results, attached, from, left);
    assert(essentials(trace) == seq![appended] + essentials(rest)) by {
        if attached(at) {
            let second = scheduler_step(first.0, done, attached(at + 1));
            assert(second.0 == appending && second.1 == appended);
            let tail = play(first.0, done, results, attached, at + 1, (fuel - 1) as nat);
            assert(tail == seq![appended] + rest);
            assert(trace == seq![first.1] + tail);
            lemma_essentials_first(first.1, tail);
            lemma_essentials_first(appended, rest);
        } else {
            assert(first.0 == appending && first.1 == appended);
            assert(trace == seq![appended] + rest);
            lemma_essentials_first(appended, rest);
        }
    }
    // Then the next data plugin is served, or the work on the frame ends.
    let third = scheduler_step(appending, done, attached(from));
    if plugin + 1 < s.data {
        let following = (plugin + 1) as usize;
        let asked = SchedulerActionView::RecvDatum(following);
        assert(third.1 == asked);
        let onward = play(
            third.0,
            SchedulerEventView::Datum(results[following as int]),
            results,
            attached,
            from + 1,
            (left - 1) as nat,
        );
        assert(rest == seq![asked] + onward);
        lemma_essentials_first(asked, onward);
        lemma_collecting(third.0, input, following, results, attached, from + 1, (left - 1) as nat);
        assert(after_input(third.0, input).1 == after_input(s, input).1);
        assert(essentials(trace) =~= seq![appended] + collects(results, following, s.data) + seq![
            after_input(s, input).1,
        ]);
    } else {
        assert(third == after_input(appending, input));
        assert(rest == seq![third.1]);
        lemma_essentials_last(third.1);
        assert(collects(results, (plugin + 1) as usize, s.data) =~= Seq::empty());
        assert(after_input(appending, input).1 == after_input(s, input).1);
        assert(essentials(trace) =~= seq![appended] + collects(
            results,
            (plugin + 1) as usize,
            s.data,
        ) + seq![after_input(s, input).1]);
    }
}

proof fn lemma_after_fan_out(
    s: SchedulerView,
    input: usize,
    results: Seq<DatumView>,
    attached: spec_fn(nat) -> bool,
    at: nat,
    fuel: nat,
)
    requires
        input < s.inputs,
        results.len() == s.data,
        fuel >= 3 * s.data,
    ensures
        ({
            let next = after_fan_out(s, input);
            essentials(
                if ends_frame(next.1) {
                    seq![next.1]
                } else {
                    seq![next.1] + play(next.0, answer(next.1, results), results, attached, at, fuel)
                },
            ) == collects(results, 0, s.data) + seq![after_input(s, input).1]
        }),
{
    let next = after_fan_out(s, input);
    if s.data > 0 {
        let onward = play(next.0, answer(next.1, results), results, attached, at, fuel);
        lemma_essentials_first(next.1, onward);
        lemma_collecting(next.0, input, 0, results, attached, at, fuel);
        assert(after_input(next.0, input).1 == after_input(s, input).1);
        assert(seq![next.1] + essentials(onward) =~= collects(results, 0, s.data) + seq![
            after_input(s, input).1,
        ]);
    } else {
        lemma_essentials_last(next.1);
        assert(collects(results, 0, s.data) =~= Seq::empty());
        assert(seq![next.1] =~= collects(results, 0, s.data) + seq![after_input(s, input).1]);
    }
}

proof fn lemma_sending(
    s: SchedulerView,
    input: usize,
    plugin: usize,
    frame: ImageView,
    results: Seq<DatumView>,
    attached: spec_fn(nat) -> bool,
    at: nat,
    fuel: nat,
)
    requires
        well_formed(s),
        s.stage == (SchedulerStage::Sending { input, plugin }),
        s.frame == Some(frame),
        results.len() == s.data,
        fuel >= (s.data - plugin) + 2 + 3 * s.data,
    ensures
        essentials(play(s, SchedulerEventView::Done, results, attached, at, fuel)) == sends(
            frame,
            (plugin + 1) as usize,
            s.data,
        ) + collects(results, 0, s.data) + seq![after_input(s, input).1],
    decreases s.data - plugin,
{
    let done = SchedulerEventView::Done;
    let first = scheduler_step(s, done, attached(at));
    let trace = play(s, done, results, attached, at, fuel);
    let closing = collects(results, 0, s.data) + seq![after_input(s, input).1];
    if plugin + 1 < s.data {
        let following = (plugin + 1) as usize;
        let onward = play(first.0, done, results, attached, at + 1, (fuel - 1) as nat);
        assert(trace == seq![first.1] + onward);
        lemma_essentials_first(first.1, onward);
        lemma_sending(first.0, input, following, frame, results, attached, at + 1, (fuel - 1) as nat);
        assert(after_input(first.0, input).1 == after_input(s, input).1);
        assert(essentials(trace) =~= sends(frame, following, s.data) + closing);
    } else {
        assert(sends(frame, (plugin + 1) as usize, s.data) =~= Seq::empty());
        if attached(at) {
            let mirrored = at_stage(s, SchedulerStage::MirroringFrame { input });
            assert(first.0 == mirrored);
            let onward = play(mirrored, done, results, attached, at + 1, (fuel - 1) as nat);
            assert(trace == seq![first.1] + onward);
            lemma_essentials_first(first.1, onward);
            lemma_after_fan_out(mirrored, input, results, attached, at + 2, (fuel - 2) as nat);
            assert(scheduler_step(mirrored, done, attached(at + 1)) == after_fan_out(
                mirrored,
                input,
            ));
            assert(after_input(mirrored, input).1 == after_input(s, input).1);
            assert(essentials(trace) =~= sends(frame, (plugin + 1) as usize, s.data) + closing);
        } else {
            assert(first == after_fan_out(s, input));
            lemma_after_fan_out(s, input, results, attached, at + 1, (fuel - 1) as nat);
            assert(essentials(trace) =~= sends(frame, (plugin + 1) as usize, s.data) + closing);
        }
    }
}

/// Total fan-out: once a frame is taken from an input, and whatever the
/// data plugins return and whenever an observer is attached, the schedule
/// sends exactly one copy of the frame to each data plugin, in their order,
/// then awaits and appends exactly one datum from each, in the same order,
/// and only after that polls for the next frame or starts a new round. It
/// does not stop on the way.
pub proof fn lemma_total_fan_out(
    s: SchedulerView,
    input: usize,
    frame: ImageView,
    results: Seq<DatumView>,
    attached: spec_fn(nat) -> bool,
    fuel: nat,
)
    requires
        well_formed(s),
        s.stage == (SchedulerStage::Polling { input }),
        results.len() == s.data,
        fuel >= 4 * s.data + 3,
    ensures
        essentials(play(s, SchedulerEventView::Frame(frame), results, attached, 0, fuel))
            == frame_script(s, input, frame, results),
{
    let done = SchedulerEventView::Done;
    let first = scheduler_step(s, SchedulerEventView::Frame(frame), attached(0));
    let trace = play(s, SchedulerEventView::Frame(frame), results, attached, 0, fuel);
    let closing = collects(results, 0, s.data) + seq![after_input(s, input).1];
    if s.data > 0 {
        let onward = play(first.0, done, results, attached, 1, (fuel - 1) as nat);
        assert(trace == seq![first.1] + onward);
        lemma_essentials_first(first.1, onward);
        lemma_sending(first.0, input, 0, frame, results, attached, 1, (fuel - 1) as nat);
        assert(after_input(first.0, input).1 == after_input(s, input).1);
        assert(essentials(trace) =~= frame_script(s, input, frame, results));
    } else {
        assert(sends(frame, 0, s.data) =~= Seq::empty());
        assert(collects(results, 0, s.data) =~= Seq::empty());
        if attached(0) {
            let mirrored = at_stage(s, SchedulerStage::MirroringFrame { input });
            assert(first.0 == mirrored);
            let onward = play(mirrored, done, results, attached, 1, (fuel - 1) as nat);
            assert(trace == seq![first.1] + onward);
            lemma_essentials_first(first.1, onward);
            let second = scheduler_step(mirrored, done, attached(1));
            assert(second == after_input(mirrored, input));
            assert(onward == seq![second.1]);
            lemma_essentials_last(second.1);
            assert(after_input(mirrored, input).1 == after_input(s, input).1);
            assert(essentials(trace) =~= frame_script(s, input, frame, results));
        } else {
            assert(first == after_input(s, input));
            assert(trace == seq![first.1]);
            lemma_essentials_last(first.1);
            assert(essentials(trace) =~= frame_script(s, input, frame, results));
        }
    }
}

/// While no observer is attached the schedule asks for no mirroring,
/// whatever its stage and whatever happens.
pub proof fn lemma_no_mirroring_unobserved(s: SchedulerView, event: SchedulerEventView)
    ensures
        essential(scheduler_step(s, event, false).1),
{
}

/// While no observer is attached, nothing that the schedule asks for in the
/// work on a frame is mirroring: the mirror is not touched.
pub proof fn lemma_mirror_untouched_unobserved(
    s: SchedulerView,
    event: SchedulerEventView,
    results: Seq<DatumView>,
    attached: spec_fn(nat) -> bool,
    at: nat,
    fuel: nat,
)
    requires
        forall|t: nat| !#[trigger] attached(t),
    ensures
        essentials(play(s, event, results, attached, at, fuel)) == play(
            s,
            event,
            results,
            attached,
            at,
            fuel,
        ),
    decreases fuel,
{
    let next = scheduler_step(s, event, attached(at));
    lemma_no_mirroring_unobserved(s, event);
    if fuel == 0 || ends_frame(next.1) {
        lemma_essentials_last(next.1);
    } else {
        let onward = play(
            next.0,
            answer(next.1, results),
            results,
            attached,
            at + 1,
            (fuel - 1) as nat,
        );
        lemma_mirror_untouched_unobserved(
            next.0,
            answer(next.1, results),
            results,
            attached,
            at + 1,
            (fuel - 1) as nat,
        );
        lemma_essentials_first(next.1, onward);
    }
}

/// The dispatch schedule.
pub struct Scheduler {
    inputs: usize,
    data: usize,
    stage: SchedulerStage,
    frame: Option<Image>,
    datum: Option<Datum>,
}

impl View for Scheduler {
    type V = SchedulerView;

    closed spec fn view(&self) -> SchedulerView {
        SchedulerView {
            inputs: self.inputs,
            data: self.data,
            stage: self.stage,
            frame: match self.frame {
                Some(frame) => Some(frame@),
                None => None,
            },
            datum: match self.datum {
                Some(datum) => Some(datum@),
                None => None,
            },
        }
    }
}

/// Is every plugin running, as far as observed?
pub fn check_everything_running(input_plugins: &Vec<Plugin>, data_plugins: &Vec<Plugin>) -> (running:
    bool)
    ensures
        running == {
            &&& forall|i: int|
                0 <= i < input_plugins.len() ==> (#[trigger] input_plugins[i])@.stopped.is_none()
            &&& forall|i: int|
                0 <= i < data_plugins.len() ==> (#[trigger] data_plugins[i])@.stopped.is_none()
        },
{
    let mut i: usize = 0;
    while i < input_plugins.len()
        invariant
            i <= input_plugins.len(),
            forall|k: int| 0 <= k < i ==> (#[trigger] input_plugins[k])@.stopped.is_none(),
        decreases input_plugins.len() - i,
    {
        if input_plugins[i].has_erroneously_stopped().is_some() {
            return false;
        }
        i += 1;
    }
    let mut j: usize = 0;
    while j < data_plugins.len()
        invariant
            j <= data_plugins.len(),
            forall|k: int|
                0 <= k < input_plugins.len() ==> (#[trigger] input_plugins[k])@.stopped.is_none(),
            forall|k: int| 0 <= k < j ==> (#[trigger] data_plugins[k])@.stopped.is_none(),
        decreases data_plugins.len() - j,
    {
        if data_plugins[j].has_erroneously_stopped().is_some() {
            return false;
        }
        j += 1;
    }
    true
}

impl Scheduler {
    #[verifier::type_invariant]
    spec fn holds(self) -> bool {
        well_formed(self@)
    }

    /// The schedule for so many inputs and so many data plugins, at its
    /// start. The first thing to do is to check the plugins.
    pub fn new(inputs: usize, data: usize) -> (start: (Self, SchedulerAction))
        ensures
            start.0@ == (SchedulerView {
                inputs,
                data,
                stage: SchedulerStage::Guarding,
                frame: None,
                datum: None,
            }),
            well_formed(start.0@),
            start.1@ == SchedulerActionView::CheckPlugins,
    {
        (
            Scheduler { inputs, data, stage: SchedulerStage::Guarding, frame: None, datum: None },
            SchedulerAction::CheckPlugins,
        )
    }

    /// Where the schedule stands.
    pub fn stage(&self) -> (stage: SchedulerStage)
        ensures
            stage == self@.stage,
    {
        self.stage
    }

    fn stop(inputs: usize, data: usize, error: SchedulerError) -> (next: (Self, SchedulerAction))
        ensures
            next.0@ == (SchedulerView {
                inputs,
                data,
                stage: SchedulerStage::Stopped,
                frame: None,
                datum: None,
            }),
            next.1@ == SchedulerActionView::Abort(error),
    {
        (
            Scheduler { inputs, data, stage: SchedulerStage::Stopped, frame: None, datum: None },
            SchedulerAction::Abort(error),
        )
    }

    fn next_input(inputs: usize, data: usize, input: usize) -> (next: (Self, SchedulerAction))
        requires
            input < inputs,
        ensures
            (next.0@, next.1@) == after_input(
                SchedulerView {
                    inputs,
                    data,
                    stage: SchedulerStage::Guarding,
                    frame: None,
                    datum: None,
                },
                input,
            ),
    {
        if input + 1 < inputs {
            (
                Scheduler {
                    inputs,
                    data,
                    stage: SchedulerStage::Polling { input: input + 1 },
                    frame: None,
                    datum: None,
                },
                SchedulerAction::PollInput(input + 1),
            )
        } else {
            (
                Scheduler {
                    inputs,
                    data,
                    stage: SchedulerStage::Guarding,
                    frame: None,
                    datum: None,
                },
                SchedulerAction::CheckPlugins,
            )
        }
    }

    fn collect(inputs: usize, data: usize, input: usize) -> (next: (Self, SchedulerAction))
        requires
            input < inputs,
        ensures
            (next.0@, next.1@) == after_fan_out(
                SchedulerView {
                    inputs,
                    data,
                    stage: SchedulerStage::Guarding,
                    frame: None,
                    datum: None,
                },
                input,
            ),
    {
        if data > 0 {
            (
                Scheduler {
                    inputs,
                    data,
                    stage: SchedulerStage::Collecting { input, plugin: 0 },
                    frame: None,
                    datum: None,
                },
                SchedulerAction::RecvDatum(0),
            )
        } else {
            Scheduler::next_input(inputs, data, input)
        }
    }

    /// Takes an event and says what to do next. `gui_attached` says whether
    /// an observer is attached at this moment.
    pub fn step(self, event: SchedulerEvent, gui_attached: bool) -> (next: (Self, SchedulerAction))
        ensures
            (next.0@, next.1@) == scheduler_step(self@, event@, gui_attached),
            well_formed(self@),
            well_formed(next.0@),
    {
        proof {
            use_type_invariant(&self);
        }
        let Scheduler { inputs, data, stage, frame, datum } = self;
        let next = match (stage, event) {
            (SchedulerStage::Guarding, SchedulerEvent::PluginsChecked(running)) => {
                if !running {
                    Scheduler::stop(inputs, data, SchedulerError::PluginStopped)
                } else if inputs > 0 {
                    (
                        Scheduler {
                            inputs,
                            data,
                            stage: SchedulerStage::Polling { input: 0 },
                            frame: None,
                            datum: None,
                        },
                        SchedulerAction::PollInput(0),
                    )
                } else {
                    (
                        Scheduler {
                            inputs,
                            data,
                            stage: SchedulerStage::Guarding,
                            frame: None,
                            datum: None,
                        },
                        SchedulerAction::CheckPlugins,
                    )
                }
            },
            (SchedulerStage::Polling { input }, SchedulerEvent::Timeout) => Scheduler::next_input(
                inputs,
                data,
                input,
            ),
            (SchedulerStage::Polling { input }, SchedulerEvent::Frame(arrived)) => {
                if data > 0 {
                    let copy = arrived.clone();
                    (
                        Scheduler {
                            inputs,
                            data,
                            stage: SchedulerStage::Sending { input, plugin: 0 },
                            frame: Some(arrived),
                            datum: None,
                        },
                        SchedulerAction::SendFrame(0, copy),
                    )
                } else if gui_attached {
                    (
                        Scheduler {
                            inputs,
                            data,
                            stage: SchedulerStage::MirroringFrame { input },
                            frame: None,
                            datum: None,
                        },
                        SchedulerAction::MirrorFrame(arrived),
                    )
                } else {
                    Scheduler::next_input(inputs, data, input)
                }
            },
            (SchedulerStage::Sending { input, plugin }, SchedulerEvent::Done) => {
                let held = match frame {
                    Some(held) => held,
                    None => {
                        return Scheduler::stop(inputs, data, SchedulerError::UnexpectedEvent);
                    },
                };
                if plugin + 1 < data {
                    let copy = held.clone();
                    (
                        Scheduler {
                            inputs,
                            data,
                            stage: SchedulerStage::Sending { input, plugin: plugin + 1 },
                            frame: Some(held),
                            datum,
                        },
                        SchedulerAction::SendFrame(plugin + 1, copy),
                    )
                } else if gui_attached {
                    (
                        Scheduler {
                            inputs,
                            data,
                            stage: SchedulerStage::MirroringFrame { input },
                            frame: None,
                            datum: None,
                        },
                        SchedulerAction::MirrorFrame(held),
                    )
                } else {
                    Scheduler::collect(inputs, data, input)
                }
            },
            (SchedulerStage::MirroringFrame { input }, SchedulerEvent::Done) => Scheduler::collect(
                inputs,
                data,
                input,
            ),
            (SchedulerStage::Collecting { input, plugin }, SchedulerEvent::Datum(arrived)) => {
                if gui_attached {
                    let copy = arrived.clone();
                    (
                        Scheduler {
                            inputs,
                            data,
                            stage: SchedulerStage::MirroringDatum { input, plugin },
                            frame: None,
                            datum: Some(arrived),
                        },
                        SchedulerAction::MirrorDatum(copy),
                    )
                } else {
                    (
                        Scheduler {
                            inputs,
                            data,
                            stage: SchedulerStage::Appending { input, plugin },
                            frame: None,
                            datum: None,
                        },
                        SchedulerAction::Append(arrived),
                    )
                }
            },
            (SchedulerStage::MirroringDatum { input, plugin }, SchedulerEvent::Done) => {
                let held = match datum {
                    Some(held) => held,
                    None => {
                        return Scheduler::stop(inputs, data, SchedulerError::UnexpectedEvent);
                    },
                };
                (
                    Scheduler {
                        inputs,
                        data,
                        stage: SchedulerStage::Appending { input, plugin },
                        frame: None,
                        datum: None,
                    },
                    SchedulerAction::Append(held),
                )
            },
            (SchedulerStage::Appending { input, plugin }, SchedulerEvent::Done) => {
                if plugin + 1 < data {
                    (
                        Scheduler {
                            inputs,
                            data,
                            stage: SchedulerStage::Collecting { input, plugin: plugin + 1 },
                            frame: None,
                            datum: None,
                        },
                        SchedulerAction::RecvDatum(plugin + 1),
                    )
                } else {
                    Scheduler::next_input(inputs, data, input)
                }
            },
            (_, SchedulerEvent::Failed) => Scheduler::stop(
                inputs,
                data,
                SchedulerError::ChannelClosed,
            ),
            _ => Scheduler::stop(inputs, data, SchedulerError::UnexpectedEvent),
        };
        proof {
            use_type_invariant(&next.0);
        }
        next
    }
}

} // verus!
