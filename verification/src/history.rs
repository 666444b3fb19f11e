//! The history store: a bounded, deduplicated sequence of entries, oldest
//! first, and the persisted form it is always derived from.
//!
//! Every operation is a function from what stable storage holds to what it
//! must hold afterwards. Nothing is cached between operations.

use vstd::prelude::*;

use crate::entry::{ClipboardEntry, EntryView};

verus! {

/// The largest number of entries the store retains.
pub const MAX_HISTORY_ENTRIES: usize = 100;

/// What stable storage holds, after each line of the history file has been
/// handed to the decoder.
#[derive(Debug, PartialEq, Eq)]
pub enum Persisted {
    /// There is no history file.
    Absent,
    /// The file's lines in order; `None` stands for a line that did not decode.
    /// A file that cannot be read counts as one without lines.
    Lines(Vec<Option<ClipboardEntry>>),
}

/// The mathematical value of [`Persisted`].
pub enum PersistedView {
    Absent,
    Lines(Seq<Option<EntryView>>),
}

/// The value of one decoded line.
pub open spec fn line_view(line: Option<ClipboardEntry>) -> Option<EntryView> {
    match line {
        Some(entry) => Some(entry@),
        None => None,
    }
}

/// The values of a sequence of entries.
pub open spec fn views(entries: Seq<ClipboardEntry>) -> Seq<EntryView> {
    entries.map_values(|entry: ClipboardEntry| entry@)
}

/// The values of a sequence of decoded lines.
pub open spec fn line_views(lines: Seq<Option<ClipboardEntry>>) -> Seq<Option<EntryView>> {
    lines.map_values(|line: Option<ClipboardEntry>| line_view(line))
}

impl View for Persisted {
    type V = PersistedView;

    open spec fn view(&self) -> PersistedView {
        match self {
            Persisted::Absent => PersistedView::Absent,
            Persisted::Lines(lines) => PersistedView::Lines(line_views(lines@)),
        }
    }
}

/// The entries that a file's lines decode to: the lines that decoded, in file
/// order; the others are skipped.
pub open spec fn decoded(lines: Seq<Option<EntryView>>) -> Seq<EntryView> {
    lines.filter_map(|line: Option<EntryView>| line)
}

/// The history that a persisted state stands for, oldest first.
pub open spec fn loaded(stored: PersistedView) -> Seq<EntryView> {
    match stored {
        PersistedView::Absent => Seq::empty(),
        PersistedView::Lines(lines) => decoded(lines),
    }
}

/// The persisted state that holds exactly `entries`, one per line.
pub open spec fn persisted_of(entries: Seq<EntryView>) -> PersistedView {
    PersistedView::Lines(entries.map_values(|entry: EntryView| Some(entry)))
}

/// `entries` without every entry whose text is `content`.
pub open spec fn without_content(entries: Seq<EntryView>, content: Seq<char>) -> Seq<EntryView> {
    entries.filter(|entry: EntryView| entry.content != content)
}

/// The last `capacity` entries of `entries`, or all of them if there are fewer.
pub open spec fn newest(entries: Seq<EntryView>, capacity: nat) -> Seq<EntryView> {
    if entries.len() > capacity {
        entries.subrange(entries.len() - capacity, entries.len() as int)
    } else {
        entries
    }
}

/// The history after `entry` has been recorded into `entries`: any earlier
/// occurrence of its text is gone, the entry stands last, and only the newest
/// [`MAX_HISTORY_ENTRIES`] remain.
pub open spec fn recorded(entries: Seq<EntryView>, entry: EntryView) -> Seq<EntryView> {
    newest(without_content(entries, entry.content).push(entry), MAX_HISTORY_ENTRIES as nat)
}

/// The persisted state after `entry` has been recorded.
pub open spec fn after_record(stored: PersistedView, entry: EntryView) -> PersistedView {
    persisted_of(recorded(loaded(stored), entry))
}

/// The persisted state after the history has been cleared: the file is gone,
/// not merely empty.
pub open spec fn after_clear(stored: PersistedView) -> PersistedView {
    PersistedView::Absent
}

/// The history as the control surface shows it: newest first.
pub open spec fn displayed(stored: PersistedView) -> Seq<EntryView> {
    loaded(stored).reverse()
}

/// No text occurs in two entries.
pub open spec fn unique_contents(entries: Seq<EntryView>) -> bool {
    forall|i: int, j: int|
        0 <= i < j < entries.len() ==> (#[trigger] entries[i]).content != (
        #[trigger] entries[j]).content
}

/// The store's invariant: bounded, and no text twice.
pub open spec fn well_formed(entries: Seq<EntryView>) -> bool {
    &&& entries.len() <= MAX_HISTORY_ENTRIES
    &&& unique_contents(entries)
}

proof fn lemma_views_push(entries: Seq<ClipboardEntry>, entry: ClipboardEntry)
    ensures
        views(entries.push(entry)) == views(entries).push(entry@),
{
    assert(views(entries.push(entry)) =~= views(entries).push(entry@));
}

/// Decoding one more line appends its entry, or nothing if it did not decode.
pub proof fn lemma_decoded_push(lines: Seq<Option<EntryView>>, line: Option<EntryView>)
    ensures
        decoded(lines.push(line)) == match line {
            Some(entry) => decoded(lines).push(entry),
            None => decoded(lines),
        },
{
    assert(lines.push(line).drop_last() =~= lines);
    match line {
        Some(entry) => {
            assert(decoded(lines) + seq![entry] =~= decoded(lines).push(entry));
        },
        None => {},
    }
}

/// Filtering out a text from a history that grew by one entry.
pub proof fn lemma_without_content_push(entries: Seq<EntryView>, entry: EntryView, content: Seq<char>)
    ensures
        without_content(entries.push(entry), content) == if entry.content != content {
            without_content(entries, content).push(entry)
        } else {
            without_content(entries, content)
        },
{
    assert(entries.push(entry).drop_last() =~= entries);
    reveal(Seq::filter);
}

/// Reads the history out of the persisted state, oldest first. Without a file
/// the history is empty; a line that did not decode is skipped.
pub fn load_history(stored: &Persisted) -> (history: Vec<ClipboardEntry>)
    ensures
        views(history@) == loaded(stored@),
{
    let mut history: Vec<ClipboardEntry> = Vec::new();
    assert(views(history@) =~= Seq::<EntryView>::empty());
    match stored {
        Persisted::Absent => {},
        Persisted::Lines(lines) => {
            let mut i: usize = 0;
            assert(line_views(lines@).take(0) =~= Seq::<Option<EntryView>>::empty());
            while i < lines.len()
                invariant
                    i <= lines.len(),
                    views(history@) == decoded(line_views(lines@).take(i as int)),
                decreases lines.len() - i,
            {
                proof {
                    let all = line_views(lines@);
                    assert(all.take(i as int + 1) =~= all.take(i as int).push(all[i as int]));
                    lemma_decoded_push(all.take(i as int), all[i as int]);
                }
                match &lines[i] {
                    Some(entry) => {
                        proof {
                            lemma_views_push(history@, *entry);
                        }
                        history.push(entry.clone());
                    },
                    None => {},
                }
                i += 1;
            }
            assert(line_views(lines@).take(lines.len() as int) =~= line_views(lines@));
        },
    }
    history
}

/// Records `entry` into `history`: drops every entry with the same text,
/// appends the entry, and keeps the newest [`MAX_HISTORY_ENTRIES`].
pub fn record(history: Vec<ClipboardEntry>, entry: &ClipboardEntry) -> (updated: Vec<
    ClipboardEntry,
>)
    ensures
        views(updated@) == recorded(views(history@), entry@),
{
    let mut kept: Vec<ClipboardEntry> = Vec::new();
    let mut i: usize = 0;
    assert(views(kept@) =~= Seq::<EntryView>::empty());
    assert(views(history@).take(0) =~= Seq::<EntryView>::empty());
    assert(without_content(Seq::<EntryView>::empty(), entry@.content) =~= Seq::<
        EntryView,
    >::empty());
    while i < history.len()
        invariant
            i <= history.len(),
            views(kept@) == without_content(views(history@).take(i as int), entry@.content),
        decreases history.len() - i,
    {
        proof {
            let all = views(history@);
            assert(all.take(i as int + 1) =~= all.take(i as int).push(all[i as int]));
            lemma_without_content_push(all.take(i as int), all[i as int], entry@.content);
        }
        if !history[i].same_content(entry) {
            proof {
                lemma_views_push(kept@, history[i as int]);
            }
            kept.push(history[i].clone());
        }
        i += 1;
    }
    assert(views(history@).take(history.len() as int) =~= views(history@));
    proof {
        lemma_views_push(kept@, *entry);
    }
    kept.push(entry.clone());
    if kept.len() > MAX_HISTORY_ENTRIES {
        let start: usize = kept.len() - MAX_HISTORY_ENTRIES;
        let tail = kept.split_off(start);
        assert(views(tail@) =~= newest(
            without_content(views(history@), entry@.content).push(entry@),
            MAX_HISTORY_ENTRIES as nat,
        ));
        tail
    } else {
        kept
    }
}

/// Wraps a history into the persisted state that holds it.
pub fn persist(history: Vec<ClipboardEntry>) -> (stored: Persisted)
    ensures
        stored@ == persisted_of(views(history@)),
{
    let mut lines: Vec<Option<ClipboardEntry>> = Vec::new();
    let mut i: usize = 0;
    while i < history.len()
        invariant
            i <= history.len(),
            lines.len() == i,
            forall|k: int| 0 <= k < i ==> line_view(#[trigger] lines[k]) == Some(history[k]@),
        decreases history.len() - i,
    {
        lines.push(Some(history[i].clone()));
        i += 1;
    }
    let stored = Persisted::Lines(lines);
    assert(stored@->Lines_0 =~= persisted_of(views(history@))->Lines_0);
    stored
}

/// Records `entry` against the persisted state and gives the state to write
/// back: the whole history, one entry per line.
pub fn save_entry(stored: &Persisted, entry: &ClipboardEntry) -> (updated: Persisted)
    ensures
        updated@ == after_record(stored@, entry@),
{
    let history = load_history(stored);
    persist(record(history, entry))
}

/// The history for display: newest first.
pub fn get_history(stored: &Persisted) -> (history: Vec<ClipboardEntry>)
    ensures
        views(history@) == displayed(stored@),
{
    let oldest_first = load_history(stored);
    let mut history: Vec<ClipboardEntry> = Vec::new();
    let mut i: usize = oldest_first.len();
    while i > 0
        invariant
            i <= oldest_first.len(),
            history.len() == oldest_first.len() - i,
            forall|k: int|
                0 <= k < history.len() ==> (#[trigger] history[k])@ == oldest_first[
                    oldest_first.len() - 1 - k]@,
        decreases i,
    {
        i -= 1;
        history.push(oldest_first[i].clone());
    }
    assert(views(history@) =~= views(oldest_first@).reverse());
    history
}

/// Clears the history. The state to leave behind is an absent file; the flag
/// says whether there is a file to delete.
pub fn clear_history(stored: &Persisted) -> (outcome: (Persisted, bool))
    ensures
        outcome.0@ == after_clear(stored@),
        outcome.1 == (stored@ is Lines),
{
    match stored {
        Persisted::Absent => (Persisted::Absent, false),
        Persisted::Lines(_) => (Persisted::Absent, true),
    }
}

} // verus!
