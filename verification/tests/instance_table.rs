use sm_connect::components::instance_table::{ByRecency, InstanceTable};
use sm_connect::components::{Action, Event, HandleAction, KeyCode};
use sm_connect::instance::InstanceInfo;
use sm_connect::order::{sort_in_place, Comparator};

fn record(name: &str, last_access: Option<u64>) -> InstanceInfo {
    InstanceInfo::new(
        format!("i-{}", name),
        name.to_string(),
        "10.0.0.1".to_string(),
        "54.0.0.1".to_string(),
        "eu-west-1".to_string(),
        last_access,
    )
}

fn names(table: &InstanceTable) -> Vec<String> {
    table.visible_items().iter().map(|i| i.get_name()).collect()
}

fn key(table: &mut InstanceTable, code: KeyCode) -> Action {
    table.handle_action(Event::Key(code))
}

fn fleet() -> Vec<InstanceInfo> {
    vec![
        record("web-2", Some(50)),
        record("Database", None),
        record("web-1", Some(200)),
        record("cache", None),
        record("api", Some(125)),
    ]
}

#[test]
fn a_new_table_lists_every_record_alphabetically() {
    let table = InstanceTable::with_items(fleet());
    assert_eq!(names(&table), vec!["Database", "api", "cache", "web-1", "web-2"]);
    assert_eq!(table.items().len(), 5);
    assert_eq!(table.selected(), Some(0));
    assert_eq!(table.filter().as_str(), "");
    assert!(!table.is_recent_first());
}

#[test]
fn a_new_table_without_records_has_no_selection() {
    let table = InstanceTable::with_items(vec![]);
    assert!(names(&table).is_empty());
    assert_eq!(table.selected(), None);
    assert!(table.current().is_none());
}

#[test]
fn filter_keeps_matching_names_only() {
    let mut table = InstanceTable::with_items(fleet());
    table.apply_filter("WEB".to_string());
    assert_eq!(names(&table), vec!["web-1", "web-2"]);
    assert_eq!(table.selected(), Some(0));
    assert_eq!(table.filter().as_str(), "WEB");
    assert_eq!(table.items().len(), 5);
}

#[test]
fn every_shown_record_matches_and_every_other_does_not() {
    for filter in ["", "a", "A", "web", "-", "base", "zzz", "e"] {
        let mut table = InstanceTable::with_items(fleet());
        table.apply_filter(filter.to_string());
        let shown = names(&table);
        for item in table.items() {
            let matches = item.get_name().to_lowercase().contains(&filter.to_lowercase());
            assert_eq!(shown.contains(&item.get_name()), matches);
        }
    }
}

#[test]
fn applying_the_same_filter_twice_gives_the_same_view() {
    let mut table = InstanceTable::with_items(fleet());
    table.apply_filter("a".to_string());
    let once = names(&table);
    let selected = table.selected();
    table.apply_filter("a".to_string());
    assert_eq!(names(&table), once);
    assert_eq!(table.selected(), selected);
    assert_eq!(once, vec!["Database", "api", "cache"]);
}

#[test]
fn a_filter_that_nothing_matches_leaves_no_selection() {
    let mut table = InstanceTable::with_items(fleet());
    table.apply_filter("zzz".to_string());
    assert!(names(&table).is_empty());
    assert_eq!(table.selected(), None);
    assert!(table.current().is_none());
    assert!(matches!(key(&mut table, KeyCode::Down), Action::Noop));
    assert!(matches!(key(&mut table, KeyCode::Up), Action::Noop));
    assert!(matches!(key(&mut table, KeyCode::Enter), Action::Noop));
    assert_eq!(table.selected(), None);
    table.next();
    assert_eq!(table.selected(), None);
    table.previous();
    assert_eq!(table.selected(), None);
}

#[test]
fn apply_filter_puts_the_cursor_back_on_the_first_row() {
    let mut table = InstanceTable::with_items(fleet());
    table.next();
    table.next();
    assert_eq!(table.selected(), Some(2));
    table.apply_filter("web".to_string());
    assert_eq!(table.selected(), Some(0));
}

#[test]
fn navigation_is_circular() {
    let mut table = InstanceTable::with_items(fleet());
    table.previous();
    assert_eq!(table.selected(), Some(4));
    table.next();
    assert_eq!(table.selected(), Some(0));
    table.next();
    assert_eq!(table.selected(), Some(1));
    table.previous();
    assert_eq!(table.selected(), Some(0));
}

#[test]
fn current_is_the_record_under_the_cursor() {
    let mut table = InstanceTable::with_items(fleet());
    assert_eq!(table.current().map(|i| i.get_name()), Some("Database".to_string()));
    table.next();
    let current = table.current().unwrap();
    assert_eq!(current.get_name(), "api");
    assert_eq!(current.get_instance_id(), "i-api");
    assert_eq!(current.get_last_access(), Some(125));
}

#[test]
fn recent_first_puts_latest_access_on_top_and_unvisited_last() {
    let mut table = InstanceTable::with_items(fleet());
    assert!(matches!(key(&mut table, KeyCode::Char('r')), Action::Noop));
    assert!(table.is_recent_first());
    assert_eq!(names(&table), vec!["web-1", "api", "web-2", "Database", "cache"]);
    let times: Vec<Option<u64>> = table.visible_items().iter().map(|i| i.get_last_access()).collect();
    assert_eq!(times, vec![Some(200), Some(125), Some(50), None, None]);
    assert_eq!(table.selected(), Some(0));
}

#[test]
fn toggling_recent_first_twice_returns_to_alphabetical_order() {
    let mut table = InstanceTable::with_items(fleet());
    key(&mut table, KeyCode::Char('r'));
    key(&mut table, KeyCode::Char('r'));
    assert!(!table.is_recent_first());
    assert_eq!(names(&table), vec!["Database", "api", "cache", "web-1", "web-2"]);
}

#[test]
fn toggling_recent_first_keeps_the_cursor_index() {
    let mut table = InstanceTable::with_items(fleet());
    table.next();
    table.next();
    key(&mut table, KeyCode::Char('r'));
    assert_eq!(table.selected(), Some(2));
    assert_eq!(table.current().map(|i| i.get_name()), Some("web-2".to_string()));
}

#[test]
fn records_with_the_same_access_time_keep_their_order() {
    let mut table = InstanceTable::with_items(vec![
        record("b", Some(5)),
        record("a", Some(5)),
        record("c", Some(9)),
    ]);
    assert_eq!(names(&table), vec!["a", "b", "c"]);
    key(&mut table, KeyCode::Char('r'));
    assert_eq!(names(&table), vec!["c", "a", "b"]);
}

#[test]
fn filter_in_recent_first_mode_sorts_by_recency() {
    let mut table = InstanceTable::with_items(fleet());
    key(&mut table, KeyCode::Char('r'));
    table.apply_filter("a".to_string());
    assert_eq!(names(&table), vec!["api", "Database", "cache"]);
}

#[test]
fn filter_then_recency_toggle_on_a_single_element_view() {
    let mut table = InstanceTable::with_items(vec![record("alpha", Some(100)), record("beta", None)]);
    table.apply_filter("al".to_string());
    assert_eq!(names(&table), vec!["alpha"]);
    key(&mut table, KeyCode::Char('r'));
    assert_eq!(names(&table), vec!["alpha"]);
    assert_eq!(table.selected(), Some(0));
}

#[test]
fn filter_a_matches_both_alpha_and_beta() {
    let mut table = InstanceTable::with_items(vec![record("alpha", Some(100)), record("beta", None)]);
    table.apply_filter("a".to_string());
    assert_eq!(names(&table), vec!["alpha", "beta"]);
    key(&mut table, KeyCode::Char('r'));
    assert_eq!(names(&table), vec!["alpha", "beta"]);
}

#[test]
fn replace_items_keeps_filter_and_sort_mode() {
    let mut table = InstanceTable::with_items(fleet());
    key(&mut table, KeyCode::Char('r'));
    table.apply_filter("web".to_string());
    table.next();
    table.replace_items(vec![record("web-9", None), record("db", Some(1)), record("WEB-3", Some(4))]);
    assert_eq!(names(&table), vec!["WEB-3", "web-9"]);
    assert_eq!(table.filter().as_str(), "web");
    assert!(table.is_recent_first());
    assert_eq!(table.selected(), Some(0));
    assert_eq!(table.items().len(), 3);
}

#[test]
fn with_items_and_filter_derives_the_view() {
    let table = InstanceTable::with_items_and_filter(fleet(), "c".to_string());
    assert_eq!(names(&table), vec!["cache"]);
    assert_eq!(table.selected(), Some(0));
    assert_eq!(table.filter().as_str(), "c");
}

#[test]
fn down_and_up_report_the_selected_record() {
    let mut table = InstanceTable::with_items(fleet());
    match key(&mut table, KeyCode::Down) {
        Action::Select(item) => assert_eq!(item.get_name(), "api"),
        _ => panic!("expected a selection"),
    }
    match key(&mut table, KeyCode::Up) {
        Action::Select(item) => assert_eq!(item.get_name(), "Database"),
        _ => panic!("expected a selection"),
    }
    match key(&mut table, KeyCode::Up) {
        Action::Select(item) => assert_eq!(item.get_name(), "web-2"),
        _ => panic!("expected a selection"),
    }
}

#[test]
fn enter_and_right_return_the_record_under_the_cursor() {
    let mut table = InstanceTable::with_items(fleet());
    table.next();
    match key(&mut table, KeyCode::Enter) {
        Action::ReturnInstance(item) => assert_eq!(item.get_instance_id(), "i-api"),
        _ => panic!("expected an instance"),
    }
    match key(&mut table, KeyCode::Right) {
        Action::ReturnInstance(item) => assert_eq!(item.get_instance_id(), "i-api"),
        _ => panic!("expected an instance"),
    }
    assert_eq!(table.selected(), Some(1));
}

#[test]
fn letter_keys_map_to_requests() {
    let mut table = InstanceTable::with_items(fleet());
    assert!(matches!(key(&mut table, KeyCode::Char('q')), Action::Exit));
    assert!(matches!(key(&mut table, KeyCode::Char('/')), Action::Search));
    assert!(matches!(key(&mut table, KeyCode::Char('i')), Action::ToggleInfoPanel));
    assert!(matches!(key(&mut table, KeyCode::Char('x')), Action::Noop));
    assert!(matches!(key(&mut table, KeyCode::Esc), Action::Noop));
    assert!(matches!(key(&mut table, KeyCode::Left), Action::Noop));
    assert!(matches!(table.handle_action(Event::Other), Action::Noop));
    assert_eq!(table.selected(), Some(0));
    assert_eq!(names(&table), vec!["Database", "api", "cache", "web-1", "web-2"]);
}

#[test]
fn rows_are_marked_recent_only_in_recent_first_mode() {
    let mut table = InstanceTable::with_items(fleet());
    let visited = record("x", Some(1));
    let unvisited = record("y", None);
    assert!(!table.marks_recent(&visited));
    assert!(!table.marks_recent(&unvisited));
    key(&mut table, KeyCode::Char('r'));
    assert!(table.marks_recent(&visited));
    assert!(!table.marks_recent(&unvisited));
}

#[test]
fn alphabetical_order_compares_code_points() {
    let order = ByRecency { recent_first: false };
    assert!(order.le(&record("a", None), &record("b", None)));
    assert!(!order.le(&record("b", None), &record("a", None)));
    assert!(order.le(&record("a", None), &record("a", None)));
    assert!(order.le(&record("a", None), &record("ab", None)));
    assert!(!order.le(&record("ab", None), &record("a", None)));
    assert!(order.le(&record("Z", None), &record("a", None)));
    assert!(order.le(&record("", None), &record("a", None)));
    assert!(order.le(&record("z", None), &record("é", None)));
}

#[test]
fn recency_order_compares_access_times_first() {
    let order = ByRecency { recent_first: true };
    assert!(order.le(&record("b", Some(9)), &record("a", Some(3))));
    assert!(!order.le(&record("a", Some(3)), &record("b", Some(9))));
    assert!(order.le(&record("b", Some(3)), &record("a", Some(3))));
    assert!(order.le(&record("z", Some(0)), &record("a", None)));
    assert!(!order.le(&record("a", None), &record("z", Some(0))));
    assert!(order.le(&record("a", None), &record("b", None)));
    assert!(!order.le(&record("b", None), &record("a", None)));
}

#[test]
fn sort_in_place_is_stable() {
    let mut records = vec![
        record("m", Some(1)),
        record("k", Some(7)),
        record("a", Some(1)),
        record("z", None),
        record("b", Some(7)),
        record("c", None),
    ];
    sort_in_place(&mut records, &ByRecency { recent_first: true });
    let sorted: Vec<String> = records.iter().map(|i| i.get_name()).collect();
    assert_eq!(sorted, vec!["k", "b", "m", "a", "c", "z"]);
}
