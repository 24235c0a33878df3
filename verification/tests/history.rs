use sm_connect::history::{get_current_time, time_of_reading, History, HistoryEntry};
use sm_connect::instance::InstanceInfo;

const DAY: u64 = 24 * 60 * 60;
const NOW: u64 = 1_700_000_000;

fn line(id: &str, when: u64) -> Option<HistoryEntry> {
    Some(HistoryEntry::at(id.to_string(), when))
}

fn known(history: &History, id: &str) -> Option<u64> {
    history.get(&id.to_string())
}

fn listing(history: &History) -> Vec<(String, u64)> {
    let mut entries: Vec<(String, u64)> = history
        .entries()
        .iter()
        .map(|e| (e.get_instance_id().to_string(), e.get_when()))
        .collect();
    entries.sort();
    entries
}

#[test]
fn the_clock_reads_a_time_after_2020() {
    assert!(get_current_time() > 1_577_836_800);
}

#[test]
fn a_reading_of_the_clock_gives_its_count_or_zero() {
    assert_eq!(time_of_reading(Some(1_700_000_000)), 1_700_000_000);
    assert_eq!(time_of_reading(Some(0)), 0);
    assert_eq!(time_of_reading(Some(u64::MAX)), u64::MAX);
    assert_eq!(time_of_reading(None), 0);
}

#[test]
fn a_new_entry_carries_its_instance_and_the_current_time() {
    let before = get_current_time();
    let entry = HistoryEntry::new("i-0abc".to_string());
    let after = get_current_time();
    assert_eq!(entry.get_instance_id(), "i-0abc");
    assert!(before <= entry.get_when() && entry.get_when() <= after);
}

#[test]
fn an_entry_made_at_a_given_time_holds_it() {
    let entry = HistoryEntry::at("i-1".to_string(), 42);
    assert_eq!(entry.get_instance_id(), "i-1");
    assert_eq!(entry.get_when(), 42);
}

#[test]
fn a_new_history_is_empty() {
    let history = History::new();
    assert_eq!(known(&history, "i-1"), None);
    assert!(history.entries().is_empty());
}

#[test]
fn read_drops_entries_older_than_the_window() {
    let lines = vec![
        line("i-old", NOW - 30 * DAY - 1),
        line("i-edge", NOW - 30 * DAY),
        line("i-new", NOW - 5),
        line("i-future", NOW + 100),
    ];
    let history = History::read(&lines, NOW, 30 * DAY);
    assert_eq!(known(&history, "i-old"), None);
    assert_eq!(known(&history, "i-edge"), Some(NOW - 30 * DAY));
    assert_eq!(known(&history, "i-new"), Some(NOW - 5));
    assert_eq!(known(&history, "i-future"), Some(NOW + 100));
    assert_eq!(listing(&history).len(), 3);
}

#[test]
fn read_keeps_the_latest_entry_of_an_instance() {
    let lines = vec![
        line("i-a", NOW - 500),
        line("i-b", NOW - 50),
        line("i-a", NOW - 100),
        line("i-a", NOW - 300),
        line("i-b", NOW - 50),
        line("i-a", NOW - 40 * DAY),
    ];
    let history = History::read(&lines, NOW, 30 * DAY);
    assert_eq!(
        listing(&history),
        vec![("i-a".to_string(), NOW - 100), ("i-b".to_string(), NOW - 50)]
    );
}

#[test]
fn read_skips_lines_that_could_not_be_parsed() {
    let lines = vec![None, line("i-a", NOW - 1), None, None, line("i-b", NOW - 2)];
    let history = History::read(&lines, NOW, DAY);
    assert_eq!(
        listing(&history),
        vec![("i-a".to_string(), NOW - 1), ("i-b".to_string(), NOW - 2)]
    );
    let nothing = History::read(&vec![None, None], NOW, DAY);
    assert!(nothing.entries().is_empty());
}

#[test]
fn read_with_a_window_longer_than_the_epoch_keeps_everything() {
    let lines = vec![line("i-a", 0), line("i-b", 5)];
    let history = History::read(&lines, 100, 1000);
    assert_eq!(known(&history, "i-a"), Some(0));
    assert_eq!(known(&history, "i-b"), Some(5));
    let all = History::read(&lines, u64::MAX, u64::MAX);
    assert_eq!(known(&all, "i-a"), Some(0));
}

#[test]
fn read_with_a_window_of_zero_keeps_only_the_present() {
    let lines = vec![line("i-a", 99), line("i-b", 100), line("i-c", 101)];
    let history = History::read(&lines, 100, 0);
    assert_eq!(known(&history, "i-a"), None);
    assert_eq!(known(&history, "i-b"), Some(100));
    assert_eq!(known(&history, "i-c"), Some(101));
}

#[test]
fn save_records_and_overwrites() {
    let mut history = History::new();
    history.save(HistoryEntry::at("i-a".to_string(), 10));
    history.save(HistoryEntry::at("i-b".to_string(), 20));
    assert_eq!(known(&history, "i-a"), Some(10));
    history.save(HistoryEntry::at("i-a".to_string(), 30));
    assert_eq!(known(&history, "i-a"), Some(30));
    history.save(HistoryEntry::at("i-a".to_string(), 5));
    assert_eq!(known(&history, "i-a"), Some(5));
    assert_eq!(listing(&history), vec![("i-a".to_string(), 5), ("i-b".to_string(), 20)]);
}

#[test]
fn saved_entries_are_read_back() {
    let mut history = History::read(&vec![line("i-a", NOW - 10)], NOW, DAY);
    history.save(HistoryEntry::at("i-b".to_string(), NOW));
    let written: Vec<Option<HistoryEntry>> = history.entries().into_iter().map(Some).collect();
    let reloaded = History::read(&written, NOW + 1, DAY);
    assert_eq!(listing(&reloaded), listing(&history));
}

#[test]
fn reset_forgets_everything() {
    let mut history = History::read(&vec![line("i-a", NOW), line("i-b", NOW)], NOW, DAY);
    history.reset();
    assert_eq!(known(&history, "i-a"), None);
    assert!(history.entries().is_empty());
    history.save(HistoryEntry::at("i-c".to_string(), 1));
    assert_eq!(listing(&history), vec![("i-c".to_string(), 1)]);
}

#[test]
fn annotate_sets_the_last_access_of_each_record() {
    let history = History::read(&vec![line("i-1", 111), line("i-3", 333)], 400, 1000);
    let records = vec![
        InstanceInfo::new("i-1".into(), "one".into(), "a".into(), "b".into(), "r".into(), None),
        InstanceInfo::new("i-2".into(), "two".into(), "c".into(), "d".into(), "r".into(), Some(9)),
        InstanceInfo::new("i-3".into(), "three".into(), "e".into(), "f".into(), "r".into(), None),
    ];
    let annotated = history.annotate(records);
    assert_eq!(annotated.len(), 3);
    assert_eq!(annotated[0].get_last_access(), Some(111));
    assert_eq!(annotated[1].get_last_access(), None);
    assert_eq!(annotated[2].get_last_access(), Some(333));
    assert_eq!(annotated[1].get_name(), "two");
    assert_eq!(annotated[1].get_private_ip(), "c");
    assert_eq!(annotated[1].get_public_ip(), "d");
    assert_eq!(annotated[1].get_region(), "r");
    assert_eq!(annotated[2].get_instance_id(), "i-3");
}
