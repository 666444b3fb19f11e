use banzai::{
    clear_history, get_history, load_history, persist, record, save_entry, ClipboardEntry,
    Persisted, Timestamp, MAX_HISTORY_ENTRIES,
};

fn at(seconds: i64) -> Timestamp {
    Timestamp { seconds, nanoseconds: 0 }
}

fn entry(content: &str, seconds: i64) -> ClipboardEntry {
    ClipboardEntry { timestamp: at(seconds), content: content.to_string() }
}

fn stored(entries: Vec<ClipboardEntry>) -> Persisted {
    Persisted::Lines(entries.into_iter().map(Some).collect())
}

#[test]
fn capacity_is_one_hundred() {
    assert_eq!(MAX_HISTORY_ENTRIES, 100);
}

#[test]
fn load_of_absent_file_is_empty() {
    assert_eq!(load_history(&Persisted::Absent), Vec::<ClipboardEntry>::new());
}

#[test]
fn load_of_empty_file_is_empty() {
    assert_eq!(load_history(&Persisted::Lines(Vec::new())), Vec::<ClipboardEntry>::new());
}

#[test]
fn load_keeps_file_order() {
    let file = stored(vec![entry("A", 1), entry("B", 2), entry("C", 3)]);
    assert_eq!(load_history(&file), vec![entry("A", 1), entry("B", 2), entry("C", 3)]);
}

#[test]
fn first_record_creates_the_file() {
    let after = save_entry(&Persisted::Absent, &entry("A", 1));
    assert_eq!(after, Persisted::Lines(vec![Some(entry("A", 1))]));
}

#[test]
fn record_appends_a_new_text() {
    let after = save_entry(&stored(vec![entry("A", 1)]), &entry("B", 2));
    assert_eq!(load_history(&after), vec![entry("A", 1), entry("B", 2)]);
}

#[test]
fn record_of_a_known_text_moves_it_to_the_end() {
    let before = stored(vec![entry("A", 1), entry("B", 2)]);
    let after = save_entry(&before, &entry("A", 3));
    assert_eq!(load_history(&after), vec![entry("B", 2), entry("A", 3)]);
}

#[test]
fn record_matches_text_exactly() {
    let before = vec![entry("A", 1), entry("a", 2), entry(" A", 3)];
    let after = record(before, &entry("A", 4));
    assert_eq!(after, vec![entry("a", 2), entry(" A", 3), entry("A", 4)]);
}

#[test]
fn record_removes_every_earlier_occurrence() {
    let before = vec![entry("A", 1), entry("B", 2), entry("A", 3)];
    let after = record(before, &entry("A", 4));
    assert_eq!(after, vec![entry("B", 2), entry("A", 4)]);
}

#[test]
fn record_of_the_same_text_twice_does_not_grow() {
    let once = record(vec![entry("X", 1)], &entry("A", 2));
    let twice = record(once.clone(), &entry("A", 3));
    assert_eq!(once.len(), 2);
    assert_eq!(twice, vec![entry("X", 1), entry("A", 3)]);
}

#[test]
fn one_hundred_distinct_texts_all_stay() {
    let mut store = Persisted::Absent;
    for i in 0..100 {
        store = save_entry(&store, &entry(&format!("text {}", i), i));
    }
    let history = load_history(&store);
    assert_eq!(history.len(), 100);
    assert_eq!(history[0], entry("text 0", 0));
    assert_eq!(history[99], entry("text 99", 99));
}

#[test]
fn one_text_over_capacity_drops_the_oldest() {
    let mut store = Persisted::Absent;
    for i in 0..101 {
        store = save_entry(&store, &entry(&format!("text {}", i), i));
    }
    let history = load_history(&store);
    assert_eq!(history.len(), 100);
    let expected: Vec<ClipboardEntry> =
        (1..101).map(|i| entry(&format!("text {}", i), i)).collect();
    assert_eq!(history, expected);
}

#[test]
fn an_oversized_file_is_cut_at_the_next_record() {
    let before: Vec<ClipboardEntry> = (0..150).map(|i| entry(&format!("t{}", i), i)).collect();
    let after = record(before, &entry("new", 999));
    assert_eq!(after.len(), 100);
    assert_eq!(after[0], entry("t51", 51));
    assert_eq!(after[98], entry("t149", 149));
    assert_eq!(after[99], entry("new", 999));
}

#[test]
fn refresh_at_capacity_keeps_the_size() {
    let before: Vec<ClipboardEntry> = (0..100).map(|i| entry(&format!("t{}", i), i)).collect();
    let after = record(before, &entry("t0", 500));
    assert_eq!(after.len(), 100);
    assert_eq!(after[0], entry("t1", 1));
    assert_eq!(after[99], entry("t0", 500));
}

#[test]
fn display_is_newest_first() {
    let file = stored(vec![entry("A", 1), entry("B", 2), entry("C", 3)]);
    assert_eq!(get_history(&file), vec![entry("C", 3), entry("B", 2), entry("A", 1)]);
}

#[test]
fn display_of_absent_file_is_empty() {
    assert_eq!(get_history(&Persisted::Absent), Vec::<ClipboardEntry>::new());
}

#[test]
fn clear_removes_the_file() {
    let file = stored(vec![entry("A", 1), entry("B", 2)]);
    let (after, remove) = clear_history(&file);
    assert_eq!(after, Persisted::Absent);
    assert!(remove);
    assert_eq!(load_history(&after), load_history(&Persisted::Absent));
    assert_eq!(load_history(&after), Vec::<ClipboardEntry>::new());
}

#[test]
fn clear_of_an_empty_file_still_removes_it() {
    let (after, remove) = clear_history(&Persisted::Lines(Vec::new()));
    assert_eq!(after, Persisted::Absent);
    assert!(remove);
}

#[test]
fn clear_without_a_file_removes_nothing() {
    let (after, remove) = clear_history(&Persisted::Absent);
    assert_eq!(after, Persisted::Absent);
    assert!(!remove);
}

#[test]
fn a_malformed_line_is_skipped() {
    let file = Persisted::Lines(vec![
        Some(entry("A", 1)),
        None,
        Some(entry("B", 2)),
        Some(entry("C", 3)),
    ]);
    assert_eq!(load_history(&file), vec![entry("A", 1), entry("B", 2), entry("C", 3)]);
}

#[test]
fn a_malformed_line_may_stand_anywhere() {
    let valid = vec![entry("A", 1), entry("B", 2), entry("C", 3)];
    for place in 0..=valid.len() {
        let mut lines: Vec<Option<ClipboardEntry>> = valid.iter().cloned().map(Some).collect();
        lines.insert(place, None);
        assert_eq!(load_history(&Persisted::Lines(lines)), valid);
    }
}

#[test]
fn a_file_of_malformed_lines_is_an_empty_history() {
    let file = Persisted::Lines(vec![None, None]);
    assert_eq!(load_history(&file), Vec::<ClipboardEntry>::new());
}

#[test]
fn record_writes_back_only_what_decoded() {
    let file = Persisted::Lines(vec![Some(entry("A", 1)), None]);
    let after = save_entry(&file, &entry("B", 2));
    assert_eq!(after, Persisted::Lines(vec![Some(entry("A", 1)), Some(entry("B", 2))]));
}

#[test]
fn persist_holds_one_entry_per_line() {
    let after = persist(vec![entry("A", 1), entry("B", 2)]);
    assert_eq!(after, Persisted::Lines(vec![Some(entry("A", 1)), Some(entry("B", 2))]));
    assert_eq!(persist(Vec::new()), Persisted::Lines(Vec::new()));
}

#[test]
fn record_after_clear_holds_the_entry_alone() {
    let file = stored(vec![entry("A", 1), entry("B", 2)]);
    let (cleared, _) = clear_history(&file);
    let after = save_entry(&cleared, &entry("C", 3));
    assert_eq!(load_history(&after), vec![entry("C", 3)]);
    let (again, remove) = clear_history(&save_entry(&file, &entry("C", 3)));
    assert_eq!(again, Persisted::Absent);
    assert!(remove);
}

#[test]
fn entries_compare_by_text() {
    assert!(entry("A", 1).same_content(&entry("A", 2)));
    assert!(!entry("A", 1).same_content(&entry("B", 1)));
    assert_eq!(ClipboardEntry::new(at(5), "A".to_string()), entry("A", 5));
    assert_eq!(entry("A", 5).clone(), entry("A", 5));
}
