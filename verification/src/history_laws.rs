//! What holds of the history store whatever it holds: the bound, the
//! uniqueness of texts, and how recording, clearing, loading and display
//! relate.

use vstd::prelude::*;

use crate::entry::EntryView;
use crate::history::{
    after_clear, after_record, decoded, displayed, lemma_decoded_push,
    lemma_without_content_push, loaded, newest, persisted_of, recorded, unique_contents,
    well_formed, without_content, PersistedView, MAX_HISTORY_ENTRIES,
};

verus! {

/// The history after each entry of `more` has been recorded in turn.
pub open spec fn recorded_all(entries: Seq<EntryView>, more: Seq<EntryView>) -> Seq<EntryView>
    decreases more.len(),
{
    if more.len() == 0 {
        entries
    } else {
        recorded(recorded_all(entries, more.drop_last()), more.last())
    }
}

/// `content` is the text of no entry.
pub open spec fn lacks_content(entries: Seq<EntryView>, content: Seq<char>) -> bool {
    forall|i: int| 0 <= i < entries.len() ==> (#[trigger] entries[i]).content != content
}

/// What is left after a text has been filtered out lacks that text, and is no
/// longer than before.
pub proof fn lemma_without_content_lacks(entries: Seq<EntryView>, content: Seq<char>)
    ensures
        lacks_content(without_content(entries, content), content),
        without_content(entries, content).len() <= entries.len(),
    decreases entries.len(),
{
    if entries.len() > 0 {
        lemma_without_content_lacks(entries.drop_last(), content);
        assert(entries.drop_last().push(entries.last()) =~= entries);
        lemma_without_content_push(entries.drop_last(), entries.last(), content);
    } else {
        reveal(Seq::filter);
    }
}

/// Filtering out a text that no entry holds changes nothing.
pub proof fn lemma_without_absent_content(entries: Seq<EntryView>, content: Seq<char>)
    requires
        lacks_content(entries, content),
    ensures
        without_content(entries, content) == entries,
    decreases entries.len(),
{
    if entries.len() > 0 {
        assert forall|i: int| 0 <= i < entries.drop_last().len() implies (
        #[trigger] entries.drop_last()[i]).content != content by {
            assert(entries.drop_last()[i] == entries[i]);
        }
        lemma_without_absent_content(entries.drop_last(), content);
        assert(entries.drop_last().push(entries.last()) =~= entries);
        lemma_without_content_push(entries.drop_last(), entries.last(), content);
    } else {
        reveal(Seq::filter);
    }
}

/// A history without repeated texts stays so when a text is filtered out,
/// and a text that it lacked it still lacks.
pub proof fn lemma_without_content_keeps_unique(entries: Seq<EntryView>, content: Seq<char>)
    requires
        unique_contents(entries),
    ensures
        unique_contents(without_content(entries, content)),
        forall|text: Seq<char>| #[trigger]
            lacks_content(entries, text) ==> lacks_content(without_content(entries, content), text),
    decreases entries.len(),
{
    if entries.len() > 0 {
        let front = entries.drop_last();
        let last = entries.last();
        assert forall|i: int, j: int| 0 <= i < j < front.len() implies (#[trigger] front[i]).content
            != (#[trigger] front[j]).content by {
            assert(front[i] == entries[i] && front[j] == entries[j]);
        }
        lemma_without_content_keeps_unique(front, content);
        assert(front.push(last) =~= entries);
        lemma_without_content_push(front, last, content);
        let kept = without_content(front, content);
        assert(lacks_content(front, last.content)) by {
            assert forall|i: int| 0 <= i < front.len() implies (#[trigger] front[i]).content
                != last.content by {
                assert(front[i] == entries[i]);
                assert(last == entries[entries.len() - 1]);
            }
        }
        assert(lacks_content(kept, last.content));
        assert forall|text: Seq<char>| #[trigger]
            lacks_content(entries, text) implies lacks_content(
            without_content(entries, content),
            text,
        ) by {
            assert forall|i: int| 0 <= i < front.len() implies (#[trigger] front[i]).content
                != text by {
                assert(front[i] == entries[i]);
            }
            assert(lacks_content(front, text));
            assert(lacks_content(kept, text));
            assert(last == entries[entries.len() - 1]);
        }
    } else {
        reveal(Seq::filter);
    }
}

/// Keeping the newest of a history that grew by one entry is keeping the
/// newest of what was already cut, grown by that entry.
pub proof fn lemma_newest_push(entries: Seq<EntryView>, entry: EntryView, capacity: nat)
    requires
        capacity > 0,
    ensures
        newest(newest(entries, capacity).push(entry), capacity) == newest(
            entries.push(entry),
            capacity,
        ),
{
    assert(newest(newest(entries, capacity).push(entry), capacity) =~= newest(
        entries.push(entry),
        capacity,
    ));
}

/// Recording never leaves more than [`MAX_HISTORY_ENTRIES`] entries, whatever
/// was stored before, and the entry just recorded stands last.
pub proof fn law_record_is_bounded(entries: Seq<EntryView>, entry: EntryView)
    ensures
        1 <= recorded(entries, entry).len() <= MAX_HISTORY_ENTRIES,
        recorded(entries, entry).len() <= entries.len() + 1,
        recorded(entries, entry).last() == entry,
{
    lemma_without_content_lacks(entries, entry.content);
}

/// Recording refreshes: the recorded text occurs once, at the end, and every
/// other entry that stays was there before.
pub proof fn law_record_refreshes(entries: Seq<EntryView>, entry: EntryView)
    ensures
        lacks_content(recorded(entries, entry).drop_last(), entry.content),
        forall|i: int|
            0 <= i < recorded(entries, entry).len() - 1 ==> entries.contains(
                #[trigger] recorded(entries, entry)[i],
            ),
{
    let kept = without_content(entries, entry.content);
    let after = recorded(entries, entry);
    lemma_without_content_lacks(entries, entry.content);
    assert forall|i: int| 0 <= i < after.len() - 1 implies (#[trigger] after.drop_last()[i]).content
        != entry.content by {
        let offset = kept.push(entry).len() - after.len();
        assert(after[i] == kept[i + offset]);
    }
    assert forall|i: int| 0 <= i < after.len() - 1 implies entries.contains(
        #[trigger] after[i],
    ) by {
        let offset = kept.push(entry).len() - after.len();
        assert(after[i] == kept[i + offset]);
        assert(kept.contains(kept[i + offset]));
        entries.lemma_filter_contains_rev(
            |e: EntryView| e.content != entry.content,
            kept[i + offset],
        );
    }
}

/// Recording keeps the store's invariant: a bounded history without repeated
/// texts stays bounded and without repeated texts.
pub proof fn law_record_preserves_well_formed(entries: Seq<EntryView>, entry: EntryView)
    requires
        unique_contents(entries),
    ensures
        well_formed(recorded(entries, entry)),
{
    let kept = without_content(entries, entry.content);
    let grown = kept.push(entry);
    let after = recorded(entries, entry);
    lemma_without_content_lacks(entries, entry.content);
    lemma_without_content_keeps_unique(entries, entry.content);
    assert(unique_contents(grown));
    let offset = grown.len() - after.len();
    assert forall|i: int, j: int| 0 <= i < j < after.len() implies (#[trigger] after[i]).content
        != (#[trigger] after[j]).content by {
        assert(after[i] == grown[i + offset]);
        assert(after[j] == grown[j + offset]);
    }
}

/// Recording the same text twice in a row does not grow the store: the second
/// recording only replaces the entry that the first one placed last.
pub proof fn law_record_same_text_twice(entries: Seq<EntryView>, first: EntryView, second: EntryView)
    requires
        first.content == second.content,
    ensures
        recorded(recorded(entries, first), second) == recorded(entries, first).drop_last().push(
            second,
        ),
        recorded(recorded(entries, first), second).len() == recorded(entries, first).len(),
{
    let once = recorded(entries, first);
    law_record_is_bounded(entries, first);
    law_record_refreshes(entries, first);
    let front = once.drop_last();
    assert(front.push(first) =~= once);
    lemma_without_content_push(front, first, second.content);
    lemma_without_absent_content(front, second.content);
    assert(without_content(once, second.content) == front);
}

/// Recording entries with pairwise different texts, none of them stored
/// before, leaves the newest [`MAX_HISTORY_ENTRIES`] of all of them in the
/// order of recording: the oldest are dropped.
pub proof fn law_distinct_records_keep_newest(entries: Seq<EntryView>, more: Seq<EntryView>)
    requires
        entries.len() <= MAX_HISTORY_ENTRIES,
        unique_contents(entries + more),
    ensures
        recorded_all(entries, more) == newest(entries + more, MAX_HISTORY_ENTRIES as nat),
    decreases more.len(),
{
    let all = entries + more;
    if more.len() == 0 {
        assert(all =~= entries);
    } else {
        let front = more.drop_last();
        let last = more.last();
        let before = entries + front;
        assert(before.push(last) =~= all);
        assert forall|i: int, j: int| 0 <= i < j < before.len() implies (
        #[trigger] before[i]).content != (#[trigger] before[j]).content by {
            assert(before[i] == all[i] && before[j] == all[j]);
        }
        law_distinct_records_keep_newest(entries, front);
        let cut = newest(before, MAX_HISTORY_ENTRIES as nat);
        assert(lacks_content(cut, last.content)) by {
            let offset = before.len() - cut.len();
            assert forall|i: int| 0 <= i < cut.len() implies (#[trigger] cut[i]).content
                != last.content by {
                assert(cut[i] == before[i + offset]);
                assert(before[i + offset] == all[i + offset]);
                assert(last == all[all.len() - 1]);
            }
        }
        lemma_without_absent_content(cut, last.content);
        lemma_newest_push(before, last, MAX_HISTORY_ENTRIES as nat);
    }
}

/// A store that starts empty and only ever records keeps its invariant: at
/// every moment it holds at most [`MAX_HISTORY_ENTRIES`] entries and no text
/// twice, whatever is recorded and in whatever order.
pub proof fn law_store_stays_well_formed(more: Seq<EntryView>)
    ensures
        well_formed(recorded_all(Seq::empty(), more)),
    decreases more.len(),
{
    if more.len() > 0 {
        law_store_stays_well_formed(more.drop_last());
        law_record_preserves_well_formed(
            recorded_all(Seq::empty(), more.drop_last()),
            more.last(),
        );
    }
}

/// A store holds only what was put into it: every entry of the history after
/// a run of recordings was stored before or is one of those recorded. So a
/// store that is fed texts that are not empty never holds an empty one.
pub proof fn law_store_holds_what_was_recorded(entries: Seq<EntryView>, more: Seq<EntryView>)
    ensures
        forall|i: int|
            0 <= i < recorded_all(entries, more).len() ==> entries.contains(
                #[trigger] recorded_all(entries, more)[i],
            ) || more.contains(recorded_all(entries, more)[i]),
    decreases more.len(),
{
    if more.len() > 0 {
        let front = more.drop_last();
        let before = recorded_all(entries, front);
        let after = recorded_all(entries, more);
        law_store_holds_what_was_recorded(entries, front);
        law_record_refreshes(before, more.last());
        law_record_is_bounded(before, more.last());
        assert forall|i: int| 0 <= i < after.len() implies entries.contains(#[trigger] after[i])
            || more.contains(after[i]) by {
            if i == after.len() - 1 {
                assert(after[i] == more[more.len() - 1]);
            } else {
                assert(before.contains(after[i]));
                let k = choose|k: int| 0 <= k < before.len() && before[k] == after[i];
                if front.contains(before[k]) {
                    let j = choose|j: int| 0 <= j < front.len() && front[j] == before[k];
                    assert(more[j] == front[j]);
                }
            }
        }
    }
}

/// One more distinct text than the store can hold: exactly
/// [`MAX_HISTORY_ENTRIES`] entries remain, the first one recorded is gone and
/// the others stand in the order of recording.
pub proof fn law_one_over_capacity(more: Seq<EntryView>)
    requires
        more.len() == MAX_HISTORY_ENTRIES + 1,
        unique_contents(more),
    ensures
        recorded_all(Seq::empty(), more).len() == MAX_HISTORY_ENTRIES,
        recorded_all(Seq::empty(), more) == more.subrange(1, more.len() as int),
{
    assert(Seq::<EntryView>::empty() + more =~= more);
    law_distinct_records_keep_newest(Seq::empty(), more);
}

/// Display order is storage order reversed: the entry shown at place `i` is
/// the one stored `i` places from the end.
pub proof fn law_display_is_newest_first(stored: PersistedView, i: int)
    requires
        0 <= i < loaded(stored).len(),
    ensures
        displayed(stored).len() == loaded(stored).len(),
        displayed(stored)[i] == loaded(stored)[loaded(stored).len() - 1 - i],
{
}

/// After a clear, loading gives the empty history, as it does where nothing
/// was ever stored.
pub proof fn law_clear_then_load(stored: PersistedView)
    ensures
        after_clear(stored) == PersistedView::Absent,
        loaded(after_clear(stored)) == Seq::<EntryView>::empty(),
        displayed(after_clear(stored)) == Seq::<EntryView>::empty(),
{
    assert(displayed(after_clear(stored)) =~= Seq::<EntryView>::empty());
}

/// Lines that all decode give back exactly their entries.
pub proof fn law_valid_lines_decode(entries: Seq<EntryView>)
    ensures
        decoded(entries.map_values(|entry: EntryView| Some(entry))) == entries,
    decreases entries.len(),
{
    let lines = entries.map_values(|entry: EntryView| Some(entry));
    if entries.len() > 0 {
        law_valid_lines_decode(entries.drop_last());
        assert(lines =~= entries.drop_last().map_values(|entry: EntryView| Some(entry)).push(
            Some(entries.last()),
        ));
        lemma_decoded_push(
            entries.drop_last().map_values(|entry: EntryView| Some(entry)),
            Some(entries.last()),
        );
        assert(entries.drop_last().push(entries.last()) =~= entries);
    }
}

/// Decoding goes line by line: what two runs of lines decode to is what the
/// first decodes to, followed by what the second decodes to.
pub proof fn lemma_decoded_concat(front: Seq<Option<EntryView>>, back: Seq<Option<EntryView>>)
    ensures
        decoded(front + back) == decoded(front) + decoded(back),
    decreases back.len(),
{
    if back.len() == 0 {
        assert(front + back =~= front);
        assert(decoded(front) + decoded(back) =~= decoded(front));
    } else {
        lemma_decoded_concat(front, back.drop_last());
        assert(front + back =~= (front + back.drop_last()).push(back.last()));
        lemma_decoded_push(front + back.drop_last(), back.last());
        assert(back.drop_last().push(back.last()) =~= back);
        lemma_decoded_push(back.drop_last(), back.last());
        match back.last() {
            Some(entry) => {
                assert((decoded(front) + decoded(back.drop_last())).push(entry) =~= decoded(front)
                    + decoded(back.drop_last()).push(entry));
            },
            None => {},
        }
    }
}

/// A line that does not decode is skipped and costs nothing else: with it or
/// without it, at whatever place, the file decodes to the same entries.
pub proof fn law_malformed_line_is_skipped(lines: Seq<Option<EntryView>>, at: int)
    requires
        0 <= at <= lines.len(),
    ensures
        decoded(lines.insert(at, None)) == decoded(lines),
{
    let front = lines.take(at);
    let back = lines.skip(at);
    assert(lines.insert(at, None) =~= front.push(None) + back);
    assert(lines =~= front + back);
    lemma_decoded_concat(front.push(None), back);
    lemma_decoded_concat(front, back);
    lemma_decoded_push(front, None);
}

/// One malformed line among valid ones: the file decodes to exactly the
/// entries of the valid lines, in order.
pub proof fn law_one_malformed_line_among_valid(entries: Seq<EntryView>, at: int)
    requires
        0 <= at <= entries.len(),
    ensures
        decoded(entries.map_values(|entry: EntryView| Some(entry)).insert(at, None)) == entries,
{
    law_malformed_line_is_skipped(entries.map_values(|entry: EntryView| Some(entry)), at);
    law_valid_lines_decode(entries);
}

/// What was recorded is what the next load sees.
pub proof fn law_load_after_record(stored: PersistedView, entry: EntryView)
    ensures
        loaded(after_record(stored, entry)) == recorded(loaded(stored), entry),
        loaded(persisted_of(loaded(stored))) == loaded(stored),
{
    law_valid_lines_decode(recorded(loaded(stored), entry));
    law_valid_lines_decode(loaded(stored));
}

/// A recording and a clear, each applied whole and one after the other in
/// either order, leave the store cleared or holding the recorded entry alone;
/// on the way it holds what it held at first or what the recording made of
/// that. No other state can be seen.
pub proof fn law_record_and_clear_in_turn(stored: PersistedView, entry: EntryView)
    ensures
        after_clear(after_record(stored, entry)) == PersistedView::Absent,
        after_record(after_clear(stored), entry) == persisted_of(seq![entry]),
        loaded(after_record(after_clear(stored), entry)) == seq![entry],
{
    reveal(Seq::filter);
    assert(without_content(Seq::<EntryView>::empty(), entry.content) =~= Seq::<
        EntryView,
    >::empty());
    assert(Seq::<EntryView>::empty().push(entry) =~= seq![entry]);
    law_valid_lines_decode(seq![entry]);
}

} // verus!
