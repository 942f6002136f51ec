use openhousepopulator::parser::housenumber::{
    HouseNumber, HouseNumberList, SingleHouseNumber, Subdivisions,
};
use openhousepopulator::text::decimal_string;

#[test]
fn single_number_is_number_then_suffix() {
    assert_eq!(SingleHouseNumber::new(12, "a").to_string(), "12a");
    assert_eq!(SingleHouseNumber::plain(0).to_string(), "0");
    assert_eq!(SingleHouseNumber::plain(65535).to_string(), "65535");
    assert_eq!(SingleHouseNumber::new(7, "bis").to_string(), "7bis");
}

#[test]
fn subdivided_number_lists_its_suffixes() {
    let both = Subdivisions::new(12, vec!["a".to_string(), "b".to_string()]);
    assert_eq!(both.to_string(), "12 a/b");
    assert_eq!(Subdivisions::new(3, vec!["x".to_string()]).to_string(), "3 x");
    assert_eq!(Subdivisions::new(3, Vec::new()).to_string(), "3 ");
    assert_eq!(HouseNumber::Subdivided(both).to_string(), "12 a/b");
}

#[test]
fn range_is_written_with_a_dash() {
    let range = HouseNumber::Range(SingleHouseNumber::new(14, "a"), SingleHouseNumber::plain(16));
    assert_eq!(range.to_string(), "14a-16");
    assert_eq!(HouseNumber::Single(SingleHouseNumber::new(1, "c")).to_string(), "1c");
}

#[test]
fn set_is_listed_in_the_order_of_its_texts() {
    let list = HouseNumberList::parse("12,14-16,18a").unwrap();
    assert_eq!(list.to_string(), "12/14/15/18a");
    let list = HouseNumberList::parse("9,10,100,1a,1").unwrap();
    assert_eq!(list.to_string(), "1/10/100/1a/9");
    let list = HouseNumberList::parse("2 b/a/B").unwrap();
    assert_eq!(list.to_string(), "2B/2a/2b");
}

#[test]
fn empty_set_is_the_empty_text() {
    assert_eq!(HouseNumberList::new().to_string(), "");
    assert_eq!(HouseNumberList::parse("5-5").unwrap().to_string(), "");
    assert_eq!(HouseNumberList::parse("5").unwrap().to_string(), "5");
}

#[test]
fn house_numbers_written_alike_are_listed_each() {
    let mut list = HouseNumberList::new();
    list.insert(SingleHouseNumber::new(1, "2"));
    list.insert(SingleHouseNumber::plain(12));
    list.insert(SingleHouseNumber::plain(3));
    assert_eq!(list.to_string(), "12/12/3");
}

#[test]
fn listing_reads_back_as_the_same_set() {
    for text in ["12,14-16,18a", "7 a/b/c;9", "1-12", "3"] {
        let list = HouseNumberList::parse(text).unwrap();
        let listing = list.to_string();
        let again = HouseNumberList::parse(&listing).unwrap();
        assert_eq!(again.count(), list.count());
        for single in list.to_vec() {
            assert!(again.contains(&single), "{:?}", listing);
        }
    }
}

#[test]
fn numerals_have_no_leading_zeros() {
    assert_eq!(decimal_string(0), "0");
    assert_eq!(decimal_string(9), "9");
    assert_eq!(decimal_string(10), "10");
    assert_eq!(decimal_string(4096), "4096");
    assert_eq!(decimal_string(u64::MAX), "18446744073709551615");
}

#[test]
fn try_from_reads_as_parse_does() {
    let list = HouseNumberList::try_from("4 a/b").unwrap();
    assert_eq!(list.to_string(), "4a/4b");
    assert!(HouseNumberList::try_from("x").is_err());
}

#[test]
fn texts_are_ordered_by_their_characters() {
    let mut list = HouseNumberList::new();
    for suffix in ["z", "é", "", "Z", "aa", "a", "\u{10000}", "\u{ffff}"] {
        list.insert(SingleHouseNumber::new(1, suffix));
    }
    assert_eq!(list.to_string(), "1/1Z/1a/1aa/1z/1é/1\u{ffff}/1\u{10000}");
}
