use openhousepopulator::config::ConfigBuilder;
use openhousepopulator::pbf::flats::{read_count, read_levels, Numeral, NUMERAL_LIMIT};
use openhousepopulator::pbf::{GenericWay, Polygon};
use openhousepopulator::tags::Tags;
use openhousepopulator::{Config, Diagnostic, Error};

fn way(tags: &[(&str, &str)]) -> GenericWay {
    let mut held = Tags::new();
    for (key, value) in tags {
        held.insert(key, value);
    }
    GenericWay { polygon: Polygon::new(Vec::new()), tags: held }
}

fn flats(tags: &[(&str, &str)], house_numbers: usize, config: &Config) -> Result<usize, Error> {
    let mut diagnostics = Vec::new();
    way(tags).calculate_flat_count(house_numbers, config, &mut diagnostics)
}

fn findings(tags: &[(&str, &str)], config: &Config) -> Vec<Diagnostic> {
    let mut diagnostics = Vec::new();
    let _ = way(tags).calculate_flat_count(2, config, &mut diagnostics);
    diagnostics
}

fn defaults() -> Config {
    ConfigBuilder::new().build()
}

#[test]
fn excluded_key_gives_no_flats() {
    let config = defaults();
    assert_eq!(flats(&[("building", "apartments"), ("amenity", "school")], 5, &config), Ok(0));
    assert_eq!(flats(&[("building", "house"), ("leisure", "sauna")], 0, &config), Ok(0));
    assert_eq!(
        flats(&[("building", "house"), ("amenity", "x"), ("building:flats", "9")], 0, &config),
        Ok(0)
    );
}

#[test]
fn excluded_landuse_gives_no_flats() {
    let config = defaults();
    assert_eq!(flats(&[("building", "house"), ("landuse", "retail")], 3, &config), Ok(0));
    assert_eq!(flats(&[("building", "house"), ("landuse", "residential")], 3, &config), Ok(1));
}

#[test]
fn declared_flats_stand_as_they_are() {
    let config = defaults();
    assert_eq!(flats(&[("building", "house"), ("building:flats", "12")], 3, &config), Ok(12));
    assert_eq!(flats(&[("building:flats", "+7"), ("building:levels", "9")], 3, &config), Ok(7));
    assert_eq!(flats(&[("building:flats", "0"), ("building", "apartments")], 3, &config), Ok(0));
}

#[test]
fn single_home_has_one_flat() {
    let config = defaults();
    assert_eq!(flats(&[("building", "house")], 0, &config), Ok(1));
    assert_eq!(flats(&[("building", "detached")], 4, &config), Ok(1));
}

#[test]
fn apartments_count_house_numbers_times_factor() {
    let config = defaults();
    assert_eq!(flats(&[("building", "apartments")], 2, &config), Ok(6));
    assert_eq!(flats(&[("building", "residential")], 1, &config), Ok(3));
    let other = ConfigBuilder::new().housenumber_factor(5).build();
    assert_eq!(flats(&[("building", "apartments")], 2, &other), Ok(10));
}

#[test]
fn apartments_without_house_numbers_get_the_fallback() {
    assert_eq!(flats(&[("building", "apartments")], 0, &defaults()), Ok(4));
    let other = ConfigBuilder::new().fallback_flats(1).build();
    assert_eq!(flats(&[("building", "apartments")], 0, &other), Ok(1));
    assert_eq!(flats(&[("building", "terrace")], 0, &other), Ok(1));
}

#[test]
fn unspecified_type_counts_house_numbers() {
    let config = defaults();
    assert_eq!(flats(&[("building", "terrace")], 3, &config), Ok(3));
    assert_eq!(flats(&[("building", "semidetached_house")], 0, &config), Ok(4));
}

#[test]
fn generic_building_counts_house_numbers() {
    let config = defaults();
    assert_eq!(flats(&[("building", "yes")], 3, &config), Ok(3));
    assert_eq!(flats(&[("building", "yes")], 0, &config), Ok(0));
}

#[test]
fn unknown_or_missing_type_has_no_base() {
    let config = defaults();
    assert_eq!(flats(&[("building", "garage")], 3, &config), Ok(0));
    assert_eq!(flats(&[], 3, &config), Ok(0));
    assert_eq!(flats(&[("name", "x")], 0, &config), Ok(0));
}

#[test]
fn levels_above_threshold_add_to_the_base() {
    let config = defaults();
    assert_eq!(flats(&[("building", "apartments"), ("building:levels", "6")], 2, &config), Ok(10));
    assert_eq!(flats(&[("building", "house"), ("building:levels", "7")], 0, &config), Ok(7));
    assert_eq!(flats(&[("building:levels", "10")], 0, &config), Ok(12));
    assert_eq!(flats(&[("building", "yes"), ("building:levels", "5.9")], 1, &config), Ok(3));
}

#[test]
fn levels_at_or_below_threshold_change_nothing() {
    let config = defaults();
    assert_eq!(flats(&[("building", "apartments"), ("building:levels", "4")], 2, &config), Ok(6));
    assert_eq!(flats(&[("building", "apartments"), ("building:levels", "4.99")], 2, &config), Ok(6));
    assert_eq!(flats(&[("building", "apartments"), ("building:levels", "-8")], 2, &config), Ok(6));
    assert_eq!(flats(&[("building", "apartments"), ("building:levels", "0")], 2, &config), Ok(6));
}

#[test]
fn low_threshold_takes_flats_away_but_never_below_zero() {
    let config = ConfigBuilder::new().level_threshold(1).level_factor(2).build();
    assert_eq!(flats(&[("building", "apartments"), ("building:levels", "2")], 2, &config), Ok(2));
    assert_eq!(flats(&[("building", "apartments"), ("building:levels", "3")], 2, &config), Ok(4));
    assert_eq!(flats(&[("building", "house"), ("building:levels", "2")], 0, &config), Ok(0));
    assert_eq!(flats(&[("building", "apartments"), ("building:levels", "4")], 2, &config), Ok(6));
    assert_eq!(flats(&[("building", "apartments"), ("building:levels", "1")], 2, &config), Ok(6));
}

#[test]
fn non_numeric_levels_are_reported_and_change_nothing() {
    let config = defaults();
    for text in ["many", "", "3;4", "1e2", ".", "+", "3 ", "inf", "2,5"] {
        let tags = [("building", "apartments"), ("building:levels", text)];
        assert_eq!(flats(&tags, 2, &config), Ok(6), "{:?}", text);
        assert_eq!(
            findings(&tags, &config),
            vec![Diagnostic::NonNumericLevels(text.to_string())],
            "{:?}",
            text
        );
    }
}

#[test]
fn non_numeric_flats_are_reported_and_the_flats_estimated() {
    let config = defaults();
    let tags = [("building", "apartments"), ("building:flats", "a few")];
    assert_eq!(flats(&tags, 2, &config), Ok(6));
    assert_eq!(findings(&tags, &config), vec![Diagnostic::NonNumericFlats("a few".to_string())]);
    let both = [("building:flats", "-1"), ("building:levels", "x")];
    assert_eq!(
        findings(&both, &config),
        vec![
            Diagnostic::NonNumericFlats("-1".to_string()),
            Diagnostic::NonNumericLevels("x".to_string())
        ]
    );
}

#[test]
fn sound_tags_report_nothing() {
    let config = defaults();
    assert!(findings(&[("building", "house"), ("building:levels", "2.5")], &config).is_empty());
    assert!(findings(&[("building:flats", "3"), ("building:levels", "x")], &config).is_empty());
    assert!(findings(&[("amenity", "y"), ("building:levels", "x")], &config).is_empty());
}

#[test]
fn counts_beyond_the_machine_fail() {
    let config = defaults();
    assert_eq!(
        flats(&[("building:flats", "99999999999999999999999999")], 0, &config),
        Err(Error::Overflow)
    );
    assert_eq!(
        flats(&[("building:flats", "9999999999999999999999999999999999999999")], 0, &config),
        Err(Error::Overflow)
    );
    assert_eq!(
        flats(&[("building:levels", "99999999999999999999999999")], 0, &config),
        Err(Error::Overflow)
    );
    assert_eq!(flats(&[("building", "apartments")], usize::MAX, &config), Err(Error::Overflow));
    let flat = ConfigBuilder::new().level_factor(0).build();
    assert_eq!(
        flats(&[("building:levels", "9999999999999999999999999999999999999999")], 0, &flat),
        Ok(0)
    );
}

#[test]
fn largest_count_still_fits() {
    let config = ConfigBuilder::new().housenumber_factor(1).level_factor(1).build();
    assert_eq!(flats(&[("building", "apartments")], usize::MAX, &config), Ok(usize::MAX));
    let text = usize::MAX.to_string();
    assert_eq!(flats(&[("building:flats", &text)], 0, &config), Ok(usize::MAX));
    assert_eq!(flats(&[("building:levels", &text)], 0, &config), Ok(usize::MAX - 4));
    assert_eq!(
        flats(&[("building", "house"), ("building:levels", &text)], 0, &config),
        Ok(usize::MAX - 3)
    );
}

#[test]
fn counts_are_read() {
    assert_eq!(read_count("0"), Numeral::Value(0));
    assert_eq!(read_count("0042"), Numeral::Value(42));
    assert_eq!(read_count("+42"), Numeral::Value(42));
    assert_eq!(read_count(""), Numeral::Invalid);
    assert_eq!(read_count("+"), Numeral::Invalid);
    assert_eq!(read_count("-1"), Numeral::Invalid);
    assert_eq!(read_count("1.0"), Numeral::Invalid);
    assert_eq!(read_count(" 1"), Numeral::Invalid);
    assert_eq!(read_count("12a"), Numeral::Invalid);
    assert_eq!(read_count(&NUMERAL_LIMIT.to_string()), Numeral::Value(NUMERAL_LIMIT));
    assert_eq!(read_count(&(NUMERAL_LIMIT + 1).to_string()), Numeral::Beyond);
}

#[test]
fn levels_are_read_and_floored() {
    assert_eq!(read_levels("3"), Numeral::Value(3));
    assert_eq!(read_levels("3.99"), Numeral::Value(3));
    assert_eq!(read_levels("3."), Numeral::Value(3));
    assert_eq!(read_levels(".7"), Numeral::Value(0));
    assert_eq!(read_levels("+2.5"), Numeral::Value(2));
    assert_eq!(read_levels("-2.5"), Numeral::Value(0));
    assert_eq!(read_levels("-0"), Numeral::Value(0));
    assert_eq!(read_levels("007.5"), Numeral::Value(7));
    assert_eq!(read_levels("."), Numeral::Invalid);
    assert_eq!(read_levels("-"), Numeral::Invalid);
    assert_eq!(read_levels("1.2.3"), Numeral::Invalid);
    assert_eq!(read_levels("1,5"), Numeral::Invalid);
    assert_eq!(read_levels("five"), Numeral::Invalid);
    assert_eq!(read_levels(&format!("{}.5", NUMERAL_LIMIT)), Numeral::Value(NUMERAL_LIMIT));
    assert_eq!(read_levels(&format!("{}0", NUMERAL_LIMIT)), Numeral::Beyond);
}
