use sm_connect::app::config::{Config, StoredConfig, StoredRegion, DEFAULT_RECENT_TIMEOUT};

fn stored(recent_timeout: u64, regions: &[(&str, bool, bool)]) -> StoredConfig {
    StoredConfig {
        recent_timeout,
        regions: regions
            .iter()
            .map(|(name, hidden, favorite)| StoredRegion {
                name: name.to_string(),
                hidden: *hidden,
                favorite: *favorite,
            })
            .collect(),
    }
}

fn flags(config: &Config) -> Vec<(String, bool, bool)> {
    config.persist().regions.into_iter().map(|r| (r.name, r.hidden, r.favorite)).collect()
}

fn reload(config: &Config) -> Config {
    Config::new(Some(config.persist())).0
}

#[test]
fn default_catalog_has_29_regions_in_alphabetical_order() {
    let catalog = Config::get_default_regions();
    assert_eq!(catalog.len(), 29);
    assert_eq!(catalog[0], "af-south-1");
    assert_eq!(catalog[13], "eu-central-1");
    assert_eq!(catalog[25], "us-east-1");
    assert_eq!(catalog[28], "us-west-2");
    let mut sorted = catalog.clone();
    sorted.sort();
    sorted.dedup();
    assert_eq!(sorted, catalog);
}

#[test]
fn default_settings_show_the_whole_catalog() {
    let config = Config::default();
    assert_eq!(config.get_visible_regions(), Config::get_default_regions());
    assert!(config.get_favorite_regions().is_empty());
    assert_eq!(config.get_recent_timeout(), 604800);
    assert_eq!(DEFAULT_RECENT_TIMEOUT, 7 * 24 * 60 * 60);
}

#[test]
fn new_without_stored_settings_starts_afresh_and_asks_for_a_rewrite() {
    let (config, rewrite) = Config::new(None);
    assert!(rewrite);
    assert_eq!(config.get_visible_regions(), Config::get_default_regions());
    assert_eq!(config.get_recent_timeout(), DEFAULT_RECENT_TIMEOUT);
}

#[test]
fn new_with_stored_settings_takes_them_over() {
    let (config, rewrite) = Config::new(Some(stored(
        99,
        &[("eu-west-1", false, true), ("us-east-1", true, false), ("moon-1", false, false)],
    )));
    assert!(!rewrite);
    assert_eq!(config.get_recent_timeout(), 99);
    assert_eq!(config.get_visible_regions(), vec!["eu-west-1", "moon-1"]);
    assert_eq!(config.get_favorite_regions(), vec!["eu-west-1"]);
}

#[test]
fn stored_settings_with_a_repeated_region_keep_the_last_flags() {
    let config = Config::from_stored(stored(
        1,
        &[("a", false, false), ("b", true, false), ("a", true, true)],
    ));
    assert_eq!(
        flags(&config),
        vec![("a".to_string(), true, true), ("b".to_string(), true, false)]
    );
}

#[test]
fn hide_region_takes_the_region_off_the_visible_list() {
    let mut config = Config::default();
    config.hide_region("eu-west-2".to_string());
    let visible = config.get_visible_regions();
    assert_eq!(visible.len(), 28);
    assert!(!visible.contains(&"eu-west-2".to_string()));
    assert!(visible.contains(&"eu-west-1".to_string()));
    config.hide_region("eu-west-2".to_string());
    assert_eq!(config.get_visible_regions().len(), 28);
}

#[test]
fn hide_region_of_an_unknown_region_changes_nothing() {
    let mut config = Config::default();
    let before = flags(&config);
    config.hide_region("mars-north-1".to_string());
    assert_eq!(flags(&config), before);
}

#[test]
fn hiding_survives_a_reload_and_reset_shows_the_region_again() {
    let mut config = Config::default();
    config.hide_region("us-east-1".to_string());
    assert!(!config.get_visible_regions().contains(&"us-east-1".to_string()));
    let mut reloaded = reload(&config);
    assert!(!reloaded.get_visible_regions().contains(&"us-east-1".to_string()));
    assert_eq!(reloaded.get_visible_regions().len(), 28);
    reloaded.reset_hidden_regions();
    assert!(reloaded.get_visible_regions().contains(&"us-east-1".to_string()));
    assert_eq!(reloaded.get_visible_regions(), Config::get_default_regions());
}

#[test]
fn reset_hidden_regions_keeps_the_favorites() {
    let mut config = Config::default();
    config.favorite_region("sa-east-1".to_string());
    config.hide_region("sa-east-1".to_string());
    config.hide_region("ca-west-1".to_string());
    config.reset_hidden_regions();
    assert_eq!(config.get_visible_regions().len(), 29);
    assert_eq!(config.get_favorite_regions(), vec!["sa-east-1"]);
}

#[test]
fn favorites_are_set_unset_and_toggled() {
    let mut config = Config::default();
    config.favorite_region("us-west-2".to_string());
    config.favorite_region("ap-east-1".to_string());
    assert_eq!(config.get_favorite_regions(), vec!["ap-east-1", "us-west-2"]);
    config.favorite_region("ap-east-1".to_string());
    assert_eq!(config.get_favorite_regions(), vec!["ap-east-1", "us-west-2"]);
    config.toggle_favorite_region("ap-east-1".to_string());
    assert_eq!(config.get_favorite_regions(), vec!["us-west-2"]);
    config.toggle_favorite_region("eu-north-1".to_string());
    assert_eq!(config.get_favorite_regions(), vec!["eu-north-1", "us-west-2"]);
    config.unset_favorite_region("us-west-2".to_string());
    assert_eq!(config.get_favorite_regions(), vec!["eu-north-1"]);
    config.unset_favorite_region("us-west-2".to_string());
    assert_eq!(config.get_favorite_regions(), vec!["eu-north-1"]);
    config.toggle_favorite_region("nowhere".to_string());
    assert_eq!(config.get_favorite_regions(), vec!["eu-north-1"]);
    assert_eq!(config.get_visible_regions().len(), 29);
}

#[test]
fn a_hidden_favorite_stays_a_favorite() {
    let mut config = Config::default();
    config.favorite_region("il-central-1".to_string());
    config.hide_region("il-central-1".to_string());
    assert_eq!(config.get_favorite_regions(), vec!["il-central-1"]);
    assert!(!config.get_visible_regions().contains(&"il-central-1".to_string()));
}

#[test]
fn set_recent_timeout_changes_only_the_window() {
    let mut config = Config::default();
    config.hide_region("me-south-1".to_string());
    let before = flags(&config);
    config.set_recent_timeout(3600);
    assert_eq!(config.get_recent_timeout(), 3600);
    assert_eq!(flags(&config), before);
    config.set_recent_timeout(0);
    assert_eq!(config.get_recent_timeout(), 0);
}

#[test]
fn persist_and_new_round_trip() {
    let mut config = Config::default();
    config.hide_region("ap-south-2".to_string());
    config.favorite_region("eu-south-1".to_string());
    config.set_recent_timeout(12345);
    let written = config.persist();
    assert_eq!(written.recent_timeout, 12345);
    assert_eq!(written.regions.len(), 29);
    assert_eq!(written.regions[6].name, "ap-south-2");
    assert!(written.regions[6].hidden);
    assert!(!written.regions[6].favorite);
    let reloaded = reload(&config);
    assert_eq!(flags(&reloaded), flags(&config));
    assert_eq!(reloaded.get_recent_timeout(), 12345);
}
