//! One recorded clipboard value and the instant at which it was observed.

use vstd::prelude::*;

verus! {

/// An instant: whole seconds since the Unix epoch, and the nanoseconds past
/// that second.
#[derive(Clone, Copy, Debug, PartialEq, Eq, Structural)]
pub struct Timestamp {
    pub seconds: i64,
    pub nanoseconds: u32,
}

/// One piece of copied text with the instant of this occurrence.
#[derive(Debug, PartialEq, Eq)]
pub struct ClipboardEntry {
    pub timestamp: Timestamp,
    pub content: String,
}

/// The mathematical value of a [`ClipboardEntry`].
pub struct EntryView {
    pub timestamp: Timestamp,
    pub content: Seq<char>,
}

impl View for ClipboardEntry {
    type V = EntryView;

    open spec fn view(&self) -> EntryView {
        EntryView { timestamp: self.timestamp, content: self.content@ }
    }
}

impl DeepView for ClipboardEntry {
    type V = EntryView;

    open spec fn deep_view(&self) -> EntryView {
        self@
    }
}

impl Clone for ClipboardEntry {
    fn clone(&self) -> (copy: Self)
        ensures
            copy == *self,
    {
        ClipboardEntry { timestamp: self.timestamp, content: self.content.clone() }
    }
}

impl ClipboardEntry {
    /// Builds an entry from its two parts.
    pub fn new(timestamp: Timestamp, content: String) -> (entry: ClipboardEntry)
        ensures
            entry.timestamp == timestamp,
            entry.content == content,
    {
        ClipboardEntry { timestamp, content }
    }

    /// Whether both entries hold the same text, whatever their instants.
    pub fn same_content(&self, other: &ClipboardEntry) -> (same: bool)
        ensures
            same == (self@.content == other@.content),
    {
        self.content == other.content
    }
}

} // verus!
