use sm_connect::components::instance_selection::InstanceSelection;
use sm_connect::components::{Action, Event, HandleAction, KeyCode};
use sm_connect::instance::InstanceInfo;

fn record(name: &str, last_access: Option<u64>) -> InstanceInfo {
    InstanceInfo::new(
        format!("i-{}", name),
        name.to_string(),
        "10.0.0.1".to_string(),
        "54.0.0.1".to_string(),
        "eu-west-1".to_string(),
        last_access,
    )
}

fn fleet() -> Vec<InstanceInfo> {
    vec![record("web-2", Some(50)), record("db", None), record("web-1", Some(200)), record("api", None)]
}

fn names(selection: &InstanceSelection) -> Vec<String> {
    selection.table().visible_items().iter().map(|i| i.get_name()).collect()
}

fn key(selection: &mut InstanceSelection, code: KeyCode) -> Action {
    selection.handle_action(Event::Key(code))
}

fn type_text(selection: &mut InstanceSelection, text: &str) {
    for c in text.chars() {
        assert!(matches!(key(selection, KeyCode::Char(c)), Action::Noop));
    }
}

#[test]
fn a_new_selector_shows_the_table() {
    let selection = InstanceSelection::new(fleet());
    assert_eq!(names(&selection), vec!["api", "db", "web-1", "web-2"]);
    assert!(!selection.is_search_active());
    assert!(!selection.is_info_panel_enabled());
    assert!(selection.details().instance().is_none());
    assert_eq!(selection.search().get_value(), "");
    let empty = InstanceSelection::default();
    assert!(names(&empty).is_empty());
    assert_eq!(empty.table().selected(), None);
}

#[test]
fn slash_opens_the_search_and_typing_filters_live() {
    let mut selection = InstanceSelection::new(fleet());
    assert!(matches!(key(&mut selection, KeyCode::Char('/')), Action::Noop));
    assert!(selection.is_search_active());
    type_text(&mut selection, "w");
    assert_eq!(names(&selection), vec!["web-1", "web-2"]);
    type_text(&mut selection, "eb-2");
    assert_eq!(names(&selection), vec!["web-2"]);
    assert!(selection.is_search_active());
    key(&mut selection, KeyCode::Backspace);
    assert_eq!(names(&selection), vec!["web-1", "web-2"]);
    assert_eq!(selection.search().get_value(), "web-");
}

#[test]
fn keys_that_are_table_commands_are_text_while_searching() {
    let mut selection = InstanceSelection::new(fleet());
    key(&mut selection, KeyCode::Char('/'));
    type_text(&mut selection, "qir/");
    assert!(selection.is_search_active());
    assert!(!selection.is_info_panel_enabled());
    assert!(!selection.table().is_recent_first());
    assert_eq!(selection.search().get_value(), "qir/");
    assert!(names(&selection).is_empty());
}

#[test]
fn enter_confirms_the_filter_and_ends_the_search() {
    let mut selection = InstanceSelection::new(fleet());
    key(&mut selection, KeyCode::Char('/'));
    type_text(&mut selection, "WEB");
    assert!(matches!(key(&mut selection, KeyCode::Enter), Action::Noop));
    assert!(!selection.is_search_active());
    assert_eq!(names(&selection), vec!["web-1", "web-2"]);
    assert_eq!(selection.table().filter().as_str(), "WEB");
    match key(&mut selection, KeyCode::Enter) {
        Action::ReturnInstance(item) => assert_eq!(item.get_name(), "web-1"),
        _ => panic!("expected an instance"),
    }
}

#[test]
fn escape_restores_the_confirmed_filter() {
    let mut selection = InstanceSelection::new(fleet());
    key(&mut selection, KeyCode::Char('/'));
    type_text(&mut selection, "web");
    key(&mut selection, KeyCode::Enter);
    key(&mut selection, KeyCode::Char('/'));
    assert_eq!(selection.search().get_value(), "web");
    type_text(&mut selection, "-2");
    assert_eq!(names(&selection), vec!["web-2"]);
    assert!(matches!(key(&mut selection, KeyCode::Esc), Action::Noop));
    assert!(!selection.is_search_active());
    assert_eq!(names(&selection), vec!["web-1", "web-2"]);
    assert_eq!(selection.table().filter().as_str(), "web");
    assert_eq!(selection.search().get_value(), "web");
}

#[test]
fn escape_without_a_confirmed_filter_shows_everything_again() {
    let mut selection = InstanceSelection::new(fleet());
    key(&mut selection, KeyCode::Char('/'));
    type_text(&mut selection, "db");
    assert_eq!(names(&selection), vec!["db"]);
    key(&mut selection, KeyCode::Esc);
    assert_eq!(names(&selection), vec!["api", "db", "web-1", "web-2"]);
    assert_eq!(selection.search().get_value(), "");
}

#[test]
fn down_and_up_leave_the_search_and_move_the_cursor() {
    let mut selection = InstanceSelection::new(fleet());
    key(&mut selection, KeyCode::Char('/'));
    type_text(&mut selection, "web");
    assert!(matches!(key(&mut selection, KeyCode::Down), Action::Noop));
    assert!(!selection.is_search_active());
    assert_eq!(names(&selection), vec!["web-1", "web-2"]);
    assert_eq!(selection.table().selected(), Some(1));
    key(&mut selection, KeyCode::Char('/'));
    assert!(matches!(key(&mut selection, KeyCode::Up), Action::Noop));
    assert!(!selection.is_search_active());
    assert_eq!(selection.table().selected(), Some(0));
    key(&mut selection, KeyCode::Char('/'));
    assert_eq!(selection.search().get_value(), "web");
    key(&mut selection, KeyCode::Esc);
    assert_eq!(names(&selection), vec!["web-1", "web-2"]);
}

#[test]
fn a_navigation_key_in_a_search_without_matches_selects_nothing() {
    let mut selection = InstanceSelection::new(fleet());
    key(&mut selection, KeyCode::Char('/'));
    type_text(&mut selection, "zzz");
    assert!(matches!(key(&mut selection, KeyCode::Down), Action::Noop));
    assert!(!selection.is_search_active());
    assert_eq!(selection.table().selected(), None);
    assert!(matches!(key(&mut selection, KeyCode::Enter), Action::Noop));
}

#[test]
fn the_info_panel_switch_changes_nothing_else() {
    let mut selection = InstanceSelection::new(fleet());
    key(&mut selection, KeyCode::Down);
    assert!(matches!(key(&mut selection, KeyCode::Char('i')), Action::Noop));
    assert!(selection.is_info_panel_enabled());
    assert_eq!(selection.table().selected(), Some(1));
    assert_eq!(names(&selection), vec!["api", "db", "web-1", "web-2"]);
    key(&mut selection, KeyCode::Char('i'));
    assert!(!selection.is_info_panel_enabled());
}

#[test]
fn selecting_a_row_sets_the_target_of_the_details() {
    let mut selection = InstanceSelection::new(fleet());
    match key(&mut selection, KeyCode::Down) {
        Action::Select(item) => assert_eq!(item.get_name(), "db"),
        _ => panic!("expected a selection"),
    }
    let shown = selection.details().instance().as_ref().map(|i| i.get_name());
    assert_eq!(shown, Some("db".to_string()));
    key(&mut selection, KeyCode::Up);
    let shown = selection.details().instance().as_ref().map(|i| i.get_name());
    assert_eq!(shown, Some("api".to_string()));
}

#[test]
fn the_recency_switch_sorts_the_table() {
    let mut selection = InstanceSelection::new(fleet());
    assert!(matches!(key(&mut selection, KeyCode::Char('r')), Action::Noop));
    assert_eq!(names(&selection), vec!["web-1", "web-2", "api", "db"]);
}

#[test]
fn q_leaves_the_selector() {
    let mut selection = InstanceSelection::new(fleet());
    assert!(matches!(key(&mut selection, KeyCode::Char('q')), Action::Exit));
    assert!(matches!(selection.handle_action(Event::Other), Action::Noop));
}

#[test]
fn update_instances_keeps_the_filter() {
    let mut selection = InstanceSelection::new(fleet());
    key(&mut selection, KeyCode::Char('/'));
    type_text(&mut selection, "web");
    key(&mut selection, KeyCode::Enter);
    key(&mut selection, KeyCode::Down);
    selection.update_instances(vec![record("cache", None), record("web-7", None), record("Web-3", None)]);
    assert_eq!(names(&selection), vec!["Web-3", "web-7"]);
    assert_eq!(selection.table().selected(), Some(0));
    assert_eq!(selection.search().get_value(), "web");
    selection.update_instances(vec![]);
    assert!(names(&selection).is_empty());
    assert_eq!(selection.table().selected(), None);
}
