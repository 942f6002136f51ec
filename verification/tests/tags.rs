use openhousepopulator::config::ConfigBuilder;
use openhousepopulator::tags::Tags;
use openhousepopulator::Config;

#[test]
fn tags_hold_each_key_once() {
    let mut tags = Tags::new();
    assert_eq!(tags.len(), 0);
    assert_eq!(tags.get("building"), None);
    assert!(!tags.contains_key("building"));
    tags.insert("building", "yes");
    tags.insert("name", "Town Hall");
    tags.insert("building", "civic");
    assert_eq!(tags.len(), 2);
    assert_eq!(tags.get("building"), Some("civic"));
    assert_eq!(tags.get("name"), Some("Town Hall"));
    assert!(tags.contains_key("name"));
    assert!(!tags.contains_key("Name"));
    assert!(!tags.contains_key(""));
}

#[test]
fn copy_of_tags_holds_the_same() {
    let mut tags = Tags::new();
    tags.insert("a", "1");
    tags.insert("", "");
    let mut copy = tags.clone();
    assert_eq!(copy.get("a"), Some("1"));
    assert_eq!(copy.get(""), Some(""));
    copy.insert("a", "2");
    assert_eq!(tags.get("a"), Some("1"));
}

#[test]
fn builder_starts_with_the_defaults() {
    let config = ConfigBuilder::new().build();
    assert_eq!(config.reroll_threshold(), 90);
    assert_eq!(config.reroll_probability(), 2);
    assert_eq!(config.level_factor(), 2);
    assert_eq!(config.housenumber_factor(), 3);
    assert_eq!(config.level_threshold(), 4);
    assert_eq!(config.fallback_flats(), 4);
    assert_eq!(
        config.exclude_landuse(),
        &vec!["allotments", "commercial", "industrial", "military", "retail"]
    );
    assert_eq!(config.exclude_tags(), &vec!["amenity", "leisure"]);
    assert_eq!(config.single_home_list(), &vec!["house", "detached"]);
    assert_eq!(config.apartment_list(), &vec!["apartments", "residential"]);
    assert_eq!(config.unspecified_list(), &vec!["terrace", "semidetached_house"]);
}

#[test]
fn builder_sets_one_setting_at_a_time() {
    let names = |list: &[&str]| -> Vec<String> { list.iter().map(|n| n.to_string()).collect() };
    let config = Config::builder()
        .reroll_threshold(7)
        .reroll_probability(-3)
        .level_factor(5)
        .housenumber_factor(6)
        .level_threshold(8)
        .fallback_flats(9)
        .exclude_landuse(names(&["quarry"]))
        .exclude_tags(names(&["emergency", "shop"]))
        .single_home_list(names(&[]))
        .apartment_list(names(&["dormitory"]))
        .unspecified_list(names(&["hut"]))
        .build();
    assert_eq!(config.reroll_threshold(), 7);
    assert_eq!(config.reroll_probability(), -3);
    assert_eq!(config.level_factor(), 5);
    assert_eq!(config.housenumber_factor(), 6);
    assert_eq!(config.level_threshold(), 8);
    assert_eq!(config.fallback_flats(), 9);
    assert_eq!(config.exclude_landuse(), &vec!["quarry"]);
    assert_eq!(config.exclude_tags(), &vec!["emergency", "shop"]);
    assert!(config.single_home_list().is_empty());
    assert_eq!(config.apartment_list(), &vec!["dormitory"]);
    assert_eq!(config.unspecified_list(), &vec!["hut"]);
    let partly = Config::builder().level_factor(1).build();
    assert_eq!(partly.level_factor(), 1);
    assert_eq!(partly.housenumber_factor(), 3);
}
