//! What holds of every run of the sampler.

use vstd::prelude::*;

use crate::entry::{EntryView, Timestamp};
use crate::sampler::{
    after_copy, idle, is_change, next, ActionView, EventView, PhaseView, SamplerView,
};

verus! {

/// One whole poll of a running sampler: a tick, then the reading that the
/// clipboard gave.
pub open spec fn polled(sampler: SamplerView, reading: Option<Seq<char>>, now: Timestamp) -> (
    SamplerView,
    ActionView,
) {
    next(next(sampler, EventView::Tick { running: true }, now).0, EventView::ClipboardRead(reading), now)
}

/// A reading that is no change for a sampler that remembers `text`: a failed
/// reading, an empty clipboard, or `text` once more.
pub open spec fn is_quiet(reading: Option<Seq<char>>, text: Seq<char>) -> bool {
    match reading {
        None => true,
        Some(read) => read.len() == 0 || read == text,
    }
}

/// The sampler after a run of polls, none of which led to a recording.
pub open spec fn polled_all(sampler: SamplerView, readings: Seq<Option<Seq<char>>>, now: Timestamp)
    -> SamplerView
    decreases readings.len(),
{
    if readings.len() == 0 {
        sampler
    } else {
        polled(polled_all(sampler, readings.drop_last(), now), readings.last(), now).0
    }
}

/// Whether some poll of the run asks the store to record.
pub open spec fn records_in(sampler: SamplerView, readings: Seq<Option<Seq<char>>>, now: Timestamp)
    -> bool
    decreases readings.len(),
{
    if readings.len() == 0 {
        false
    } else {
        records_in(sampler, readings.drop_last(), now) || polled(
            polled_all(sampler, readings.drop_last(), now),
            readings.last(),
            now,
        ).1 is Record
    }
}

/// The sampler asks for a recording only of a text that is not empty and
/// differs from the last one recorded, and only when a reading arrives while
/// it compares; the entry carries the instant of the step.
pub proof fn law_only_changes_are_recorded(sampler: SamplerView, event: EventView, now: Timestamp)
    ensures
        next(sampler, event, now).1 matches ActionView::Record(entry) ==> {
            &&& sampler.phase is Comparing
            &&& event == EventView::ClipboardRead(Some(entry.content))
            &&& is_change(sampler.last_content, entry.content)
            &&& entry.timestamp == now
            &&& next(sampler, event, now).0.phase == PhaseView::Committing(entry)
        },
{
}

/// The remembered text changes in one place only: when the store reports that
/// it has written the entry being committed. It then becomes that entry's
/// text. A failed reading, an empty clipboard or a failed write leave it as it
/// was.
pub proof fn law_memory_follows_the_store(sampler: SamplerView, event: EventView, now: Timestamp)
    ensures
        next(sampler, event, now).0.last_content == if event == EventView::Recorded(true)
            && sampler.phase is Committing {
            Some(sampler.phase->Committing_0.content)
        } else {
            sampler.last_content
        },
{
}

/// A poll that brings no change leaves a resting sampler as it was and only
/// sleeps.
pub proof fn law_quiet_poll(text: Seq<char>, reading: Option<Seq<char>>, now: Timestamp)
    requires
        is_quiet(reading, text),
    ensures
        polled(idle(Some(text)), reading, now) == (idle(Some(text)), ActionView::Sleep),
{
}

/// Once a text has been recorded, no run of polls that bring only that text,
/// an empty clipboard or failed readings records anything: the store is not
/// asked again, so it cannot grow.
pub proof fn law_repeats_are_suppressed(
    text: Seq<char>,
    readings: Seq<Option<Seq<char>>>,
    now: Timestamp,
)
    requires
        forall|i: int| 0 <= i < readings.len() ==> is_quiet(#[trigger] readings[i], text),
    ensures
        polled_all(idle(Some(text)), readings, now) == idle(Some(text)),
        !records_in(idle(Some(text)), readings, now),
    decreases readings.len(),
{
    if readings.len() > 0 {
        let front = readings.drop_last();
        assert forall|i: int| 0 <= i < front.len() implies is_quiet(#[trigger] front[i], text) by {
            assert(front[i] == readings[i]);
        }
        law_repeats_are_suppressed(text, front, now);
        assert(is_quiet(readings[readings.len() - 1], text));
        law_quiet_poll(text, readings.last(), now);
    }
}

/// A full cycle: a resting sampler that reads a change asks for it to be
/// recorded, and when the store has written it, notifies, rests and remembers
/// the text; reading the same text at the next poll then records nothing.
pub proof fn law_record_then_repeat(
    last_content: Option<Seq<char>>,
    text: Seq<char>,
    first: Timestamp,
    second: Timestamp,
)
    requires
        is_change(last_content, text),
    ensures
        ({
            let entry = EntryView { timestamp: first, content: text };
            let (comparing, asked) = polled(idle(last_content), Some(text), first);
            let (rested, told) = next(comparing, EventView::Recorded(true), first);
            &&& asked == ActionView::Record(entry)
            &&& told == ActionView::Notify(entry)
            &&& rested == idle(Some(text))
            &&& polled(rested, Some(text), second) == (rested, ActionView::Sleep)
        }),
{
}

/// Copying an entry back to the clipboard does not record it again: once the
/// resting sampler has been told of the copy, polls that bring that text, an
/// empty clipboard or failed readings record nothing.
pub proof fn law_copy_back_is_not_recorded(
    last_content: Option<Seq<char>>,
    text: Seq<char>,
    readings: Seq<Option<Seq<char>>>,
    now: Timestamp,
)
    requires
        forall|i: int| 0 <= i < readings.len() ==> is_quiet(#[trigger] readings[i], text),
    ensures
        after_copy(idle(last_content), text) == idle(Some(text)),
        !records_in(after_copy(idle(last_content), text), readings, now),
{
    law_repeats_are_suppressed(text, readings, now);
}

/// A failed write is reported and forgotten: the sampler rests with the text
/// it remembered before, so the same reading is a change again at the next
/// poll.
pub proof fn law_failed_write_is_retried(
    last_content: Option<Seq<char>>,
    text: Seq<char>,
    first: Timestamp,
    second: Timestamp,
)
    requires
        is_change(last_content, text),
    ensures
        ({
            let (comparing, asked) = polled(idle(last_content), Some(text), first);
            let (rested, told) = next(comparing, EventView::Recorded(false), first);
            &&& told == ActionView::ReportFailure
            &&& rested == idle(last_content)
            &&& polled(rested, Some(text), second).1 == ActionView::Record(
                EntryView { timestamp: second, content: text },
            )
        }),
{
}

/// The stop flag is honoured at the next tick, whatever the sampler was doing,
/// and stopping changes nothing it remembers.
pub proof fn law_stop_is_honoured(sampler: SamplerView, now: Timestamp)
    ensures
        next(sampler, EventView::Tick { running: false }, now) == (
            idle(sampler.last_content),
            ActionView::Stop,
        ),
{
}

} // verus!
