//! The sampler: the rules by which clipboard readings become recordings.
//!
//! The sampler decides; the program around it reads the clipboard, writes the
//! store, notifies the user interface and sleeps. Each thing that happens
//! outside is handed in as an event, and each step answers with the one thing
//! to do next.

use vstd::prelude::*;

use crate::clock::current_time;
use crate::entry::{ClipboardEntry, EntryView, Timestamp};

verus! {

/// The pause between two readings of the clipboard, in milliseconds.
pub const POLL_INTERVAL_MILLIS: u64 = 500;

/// Where the sampler stands in its cycle.
#[derive(Debug, PartialEq, Eq)]
pub enum Phase {
    /// Waiting for the next tick.
    Idle,
    /// A reading of the clipboard has been asked for.
    Comparing,
    /// The store has been asked to record this entry.
    Committing(ClipboardEntry),
}

/// The sampler's state: its phase, and the last text that was recorded.
#[derive(Debug, PartialEq, Eq)]
pub struct Sampler {
    pub phase: Phase,
    pub last_content: Option<String>,
}

/// What happened outside.
#[derive(Debug, PartialEq, Eq)]
pub enum SamplerEvent {
    /// A poll is due; `running` is the value of the stop flag, read now.
    Tick { running: bool },
    /// The clipboard was read; `None` if the reading failed.
    ClipboardRead(Option<String>),
    /// The store answered; `true` if the entry was written.
    Recorded(bool),
}

/// What to do next.
#[derive(Debug, PartialEq, Eq)]
pub enum SamplerAction {
    /// Read the clipboard and hand in the outcome.
    ReadClipboard,
    /// Record this entry in the store and hand in the outcome.
    Record(ClipboardEntry),
    /// Tell the user interface that this entry was recorded, then sleep.
    Notify(ClipboardEntry),
    /// Report that the store could not be written, then sleep.
    ReportFailure,
    /// Wait one poll interval, then tick.
    Sleep,
    /// Stop polling.
    Stop,
}

/// The mathematical value of [`Phase`].
pub enum PhaseView {
    Idle,
    Comparing,
    Committing(EntryView),
}

/// The mathematical value of [`Sampler`].
pub struct SamplerView {
    pub phase: PhaseView,
    pub last_content: Option<Seq<char>>,
}

/// The mathematical value of [`SamplerEvent`].
pub enum EventView {
    Tick { running: bool },
    ClipboardRead(Option<Seq<char>>),
    Recorded(bool),
}

/// The mathematical value of [`SamplerAction`].
pub enum ActionView {
    ReadClipboard,
    Record(EntryView),
    Notify(EntryView),
    ReportFailure,
    Sleep,
    Stop,
}

impl View for Phase {
    type V = PhaseView;

    open spec fn view(&self) -> PhaseView {
        match self {
            Phase::Idle => PhaseView::Idle,
            Phase::Comparing => PhaseView::Comparing,
            Phase::Committing(entry) => PhaseView::Committing(entry@),
        }
    }
}

impl View for Sampler {
    type V = SamplerView;

    open spec fn view(&self) -> SamplerView {
        SamplerView {
            phase: self.phase@,
            last_content: match self.last_content {
                Some(text) => Some(text@),
                None => None,
            },
        }
    }
}

impl View for SamplerEvent {
    type V = EventView;

    open spec fn view(&self) -> EventView {
        match self {
            SamplerEvent::Tick { running } => EventView::Tick { running: *running },
            SamplerEvent::ClipboardRead(Some(text)) => EventView::ClipboardRead(Some(text@)),
            SamplerEvent::ClipboardRead(None) => EventView::ClipboardRead(None),
            SamplerEvent::Recorded(written) => EventView::Recorded(*written),
        }
    }
}

impl View for SamplerAction {
    type V = ActionView;

    open spec fn view(&self) -> ActionView {
        match self {
            SamplerAction::ReadClipboard => ActionView::ReadClipboard,
            SamplerAction::Record(entry) => ActionView::Record(entry@),
            SamplerAction::Notify(entry) => ActionView::Notify(entry@),
            SamplerAction::ReportFailure => ActionView::ReportFailure,
            SamplerAction::Sleep => ActionView::Sleep,
            SamplerAction::Stop => ActionView::Stop,
        }
    }
}

/// A sampler that has recorded nothing yet.
pub open spec fn initial() -> SamplerView {
    SamplerView { phase: PhaseView::Idle, last_content: None }
}

/// Whether a reading is a change to record: it is not empty, and it differs
/// from the last text that was recorded.
pub open spec fn is_change(last_content: Option<Seq<char>>, text: Seq<char>) -> bool {
    text.len() > 0 && last_content != Some(text)
}

/// The sampler after the control surface has put `text` on the clipboard
/// itself: the text counts as known, so that reading it back is no change.
/// The phase stays as it is.
pub open spec fn after_copy(sampler: SamplerView, text: Seq<char>) -> SamplerView {
    SamplerView { phase: sampler.phase, last_content: Some(text) }
}

/// The sampler at rest, remembering `last_content`.
pub open spec fn idle(last_content: Option<Seq<char>>) -> SamplerView {
    SamplerView { phase: PhaseView::Idle, last_content }
}

/// One step: the state and the action that follow `event`, where `now` is the
/// instant given to an entry made in this step.
///
/// A tick starts a cycle from any phase, or stops the sampler if the flag is
/// down. A reading is awaited while comparing, the store's answer while
/// committing; either one out of turn ends the cycle without effect. The
/// remembered text changes in one place only: when the store has written.
pub open spec fn next(sampler: SamplerView, event: EventView, now: Timestamp) -> (
    SamplerView,
    ActionView,
) {
    match event {
        EventView::Tick { running } => if running {
            (
                SamplerView { phase: PhaseView::Comparing, last_content: sampler.last_content },
                ActionView::ReadClipboard,
            )
        } else {
            (idle(sampler.last_content), ActionView::Stop)
        },
        EventView::ClipboardRead(reading) => match (sampler.phase, reading) {
            (PhaseView::Comparing, Some(text)) => if is_change(sampler.last_content, text) {
                let entry = EntryView { timestamp: now, content: text };
                (
                    SamplerView {
                        phase: PhaseView::Committing(entry),
                        last_content: sampler.last_content,
                    },
                    ActionView::Record(entry),
                )
            } else {
                (idle(sampler.last_content), ActionView::Sleep)
            },
            _ => (idle(sampler.last_content), ActionView::Sleep),
        },
        EventView::Recorded(written) => match sampler.phase {
            PhaseView::Committing(entry) => if written {
                (idle(Some(entry.content)), ActionView::Notify(entry))
            } else {
                (idle(sampler.last_content), ActionView::ReportFailure)
            },
            _ => (idle(sampler.last_content), ActionView::Sleep),
        },
    }
}

impl Sampler {
    /// A sampler that has recorded nothing yet.
    pub fn new() -> (sampler: Sampler)
        ensures
            sampler@ == initial(),
    {
        Sampler { phase: Phase::Idle, last_content: None }
    }

    /// Tells the sampler that the control surface has put `text` on the
    /// clipboard. The sampler will not take that text for a change, so copying
    /// an entry back neither records it again nor moves it in the history.
    pub fn note_copied(self, text: String) -> (sampler: Sampler)
        ensures
            sampler@ == after_copy(self@, text@),
    {
        Sampler { phase: self.phase, last_content: Some(text) }
    }

    /// Takes one step with `now` as the instant of an entry made in it.
    pub fn step_at(self, event: SamplerEvent, now: Timestamp) -> (outcome: (Sampler, SamplerAction))
        ensures
            (outcome.0@, outcome.1@) == next(self@, event@, now),
    {
        let Sampler { phase, last_content } = self;
        match event {
            SamplerEvent::Tick { running } => {
                if running {
                    (Sampler { phase: Phase::Comparing, last_content }, SamplerAction::ReadClipboard)
                } else {
                    (Sampler { phase: Phase::Idle, last_content }, SamplerAction::Stop)
                }
            },
            SamplerEvent::ClipboardRead(reading) => {
                match (phase, reading) {
                    (Phase::Comparing, Some(text)) => {
                        let known = match &last_content {
                            Some(last) => *last == text,
                            None => false,
                        };
                        if !text.as_str().is_empty() && !known {
                            let entry = ClipboardEntry::new(now, text);
                            let pending = entry.clone();
                            (
                                Sampler { phase: Phase::Committing(pending), last_content },
                                SamplerAction::Record(entry),
                            )
                        } else {
                            (Sampler { phase: Phase::Idle, last_content }, SamplerAction::Sleep)
                        }
                    },
                    _ => (Sampler { phase: Phase::Idle, last_content }, SamplerAction::Sleep),
                }
            },
            SamplerEvent::Recorded(written) => {
                match phase {
                    Phase::Committing(entry) => {
                        if written {
                            let remembered = entry.content.clone();
                            (
                                Sampler { phase: Phase::Idle, last_content: Some(remembered) },
                                SamplerAction::Notify(entry),
                            )
                        } else {
                            (
                                Sampler { phase: Phase::Idle, last_content },
                                SamplerAction::ReportFailure,
                            )
                        }
                    },
                    _ => (Sampler { phase: Phase::Idle, last_content }, SamplerAction::Sleep),
                }
            },
        }
    }

    /// Takes one step. An entry made in it carries the instant that the system
    /// clock gives, read when a reading of the clipboard arrives in its turn;
    /// everything else is as [`next`] says: with the entry's instant where the
    /// step asks for a recording, with any instant where it does not.
    pub fn step(self, event: SamplerEvent) -> (outcome: (Sampler, SamplerAction))
        ensures
            outcome.1@ matches ActionView::Record(entry) ==> (outcome.0@, outcome.1@) == next(
                self@,
                event@,
                entry.timestamp,
            ),
            !(outcome.1@ is Record) ==> forall|now: Timestamp|
                (outcome.0@, outcome.1@) == #[trigger] next(self@, event@, now),
    {
        let now = match (&self.phase, &event) {
            (Phase::Comparing, SamplerEvent::ClipboardRead(Some(_))) => current_time(),
            _ => Timestamp { seconds: 0, nanoseconds: 0 },
        };
        self.step_at(event, now)
    }
}

} // verus!
