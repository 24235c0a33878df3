use sm_connect::components::region_list::{ByFavorite, RegionList};
use sm_connect::components::{Action, Event, HandleAction, KeyCode};
use sm_connect::order::Comparator;

fn list(names: &[&str]) -> Vec<String> {
    names.iter().map(|n| n.to_string()).collect()
}

fn key(regions: &mut RegionList, code: KeyCode) -> Action {
    regions.handle_action(Event::Key(code))
}

#[test]
fn a_new_list_is_alphabetical_with_the_cursor_on_top() {
    let regions = RegionList::with_items(list(&["us-east-1", "eu-west-1", "ap-south-1"]));
    assert_eq!(regions.items(), &list(&["ap-south-1", "eu-west-1", "us-east-1"]));
    assert_eq!(regions.selected(), Some(0));
    assert_eq!(regions.current(), Some("ap-south-1".to_string()));
    assert!(!regions.is_favorite(&"eu-west-1".to_string()));
}

#[test]
fn favorites_come_first_then_alphabetical_order() {
    let mut regions =
        RegionList::with_items(list(&["us-east-1", "eu-west-1", "ap-south-1", "sa-east-1", "ca-west-1"]));
    regions.set_favorites(list(&["sa-east-1", "eu-west-1"]));
    assert_eq!(
        regions.items(),
        &list(&["eu-west-1", "sa-east-1", "ap-south-1", "ca-west-1", "us-east-1"])
    );
    assert!(regions.is_favorite(&"sa-east-1".to_string()));
    assert!(!regions.is_favorite(&"us-east-1".to_string()));
    regions.set_favorites(list(&["us-east-1"]));
    assert_eq!(
        regions.items(),
        &list(&["us-east-1", "ap-south-1", "ca-west-1", "eu-west-1", "sa-east-1"])
    );
    regions.set_favorites(vec![]);
    assert_eq!(
        regions.items(),
        &list(&["ap-south-1", "ca-west-1", "eu-west-1", "sa-east-1", "us-east-1"])
    );
}

#[test]
fn a_favorite_that_is_not_listed_changes_nothing() {
    let mut regions = RegionList::with_items(list(&["b", "a"]));
    regions.set_favorites(list(&["zz"]));
    assert_eq!(regions.items(), &list(&["a", "b"]));
}

#[test]
fn of_two_regions_the_favorite_sorts_first() {
    let favorites = list(&["m"]);
    let order = ByFavorite { favorites: &favorites };
    let (a, m, z) = ("a".to_string(), "m".to_string(), "z".to_string());
    assert!(order.le(&m, &a));
    assert!(!order.le(&a, &m));
    assert!(order.le(&a, &z));
    assert!(!order.le(&z, &a));
    assert!(order.le(&m, &m));
    let both = list(&["a", "z"]);
    let order = ByFavorite { favorites: &both };
    assert!(order.le(&a, &z));
    assert!(!order.le(&z, &a));
}

#[test]
fn update_items_sorts_and_clamps_the_cursor() {
    let mut regions = RegionList::with_items(list(&["a", "b", "c", "d"]));
    regions.set_favorites(list(&["c"]));
    key(&mut regions, KeyCode::Up);
    assert_eq!(regions.selected(), Some(3));
    regions.update_items(list(&["d", "c", "a"]));
    assert_eq!(regions.items(), &list(&["c", "a", "d"]));
    assert_eq!(regions.selected(), Some(2));
    regions.update_items(list(&["d", "a"]));
    assert_eq!(regions.selected(), Some(1));
    regions.update_items(list(&["x", "d", "a"]));
    assert_eq!(regions.selected(), Some(1));
    assert_eq!(regions.current(), Some("d".to_string()));
}

#[test]
fn update_items_to_nothing_and_back() {
    let mut regions = RegionList::with_items(list(&["a", "b"]));
    regions.update_items(vec![]);
    assert!(regions.items().is_empty());
    assert_eq!(regions.selected(), None);
    assert_eq!(regions.current(), None);
    regions.update_items(list(&["q", "p"]));
    assert_eq!(regions.selected(), Some(0));
    assert_eq!(regions.current(), Some("p".to_string()));
}

#[test]
fn region_navigation_is_circular() {
    let mut regions = RegionList::with_items(list(&["a", "b", "c"]));
    assert!(matches!(key(&mut regions, KeyCode::Up), Action::Noop));
    assert_eq!(regions.selected(), Some(2));
    assert!(matches!(key(&mut regions, KeyCode::Down), Action::Noop));
    assert_eq!(regions.selected(), Some(0));
    key(&mut regions, KeyCode::Down);
    assert_eq!(regions.selected(), Some(1));
}

#[test]
fn an_empty_region_list_ignores_requests_for_the_current_region() {
    let mut regions = RegionList::with_items(vec![]);
    assert_eq!(regions.selected(), None);
    assert!(matches!(key(&mut regions, KeyCode::Down), Action::Noop));
    assert!(matches!(key(&mut regions, KeyCode::Up), Action::Noop));
    assert!(matches!(key(&mut regions, KeyCode::Enter), Action::Noop));
    assert!(matches!(key(&mut regions, KeyCode::Right), Action::Noop));
    assert!(matches!(key(&mut regions, KeyCode::Char('h')), Action::Noop));
    assert!(matches!(key(&mut regions, KeyCode::Char('*')), Action::Noop));
    assert!(matches!(key(&mut regions, KeyCode::Char('r')), Action::Reset));
    assert!(matches!(key(&mut regions, KeyCode::Char('c')), Action::OpenConfig));
    assert!(matches!(key(&mut regions, KeyCode::Char('q')), Action::Exit));
    assert_eq!(regions.selected(), None);
}

#[test]
fn region_keys_name_the_region_under_the_cursor() {
    let mut regions = RegionList::with_items(list(&["a", "b", "c"]));
    key(&mut regions, KeyCode::Down);
    match key(&mut regions, KeyCode::Char('h')) {
        Action::Hide(region) => assert_eq!(region, "b"),
        _ => panic!("expected a hide request"),
    }
    match key(&mut regions, KeyCode::Char('*')) {
        Action::ToggleFavorite(region) => assert_eq!(region, "b"),
        _ => panic!("expected a favorite request"),
    }
    match key(&mut regions, KeyCode::Enter) {
        Action::Return(region) => assert_eq!(region, "b"),
        _ => panic!("expected a region"),
    }
    match key(&mut regions, KeyCode::Right) {
        Action::Return(region) => assert_eq!(region, "b"),
        _ => panic!("expected a region"),
    }
    assert!(matches!(key(&mut regions, KeyCode::Char('x')), Action::Noop));
    assert!(matches!(key(&mut regions, KeyCode::Esc), Action::Noop));
    assert!(matches!(regions.handle_action(Event::Other), Action::Noop));
    assert_eq!(regions.selected(), Some(1));
    assert_eq!(regions.items(), &list(&["a", "b", "c"]));
}
