use openhousepopulator::parser::housenumber::{
    HouseNumber, HouseNumberList, ParseError, SingleHouseNumber, Subdivisions,
};

fn holds(list: &HouseNumberList, expected: &[(u16, &str)]) -> bool {
    list.count() == expected.len()
        && expected
            .iter()
            .all(|(number, suffix)| list.contains(&SingleHouseNumber::new(*number, suffix)))
}

#[test]
fn list_with_range_and_suffix() {
    let list = HouseNumberList::parse("12,14-16,18a").unwrap();
    assert!(holds(&list, &[(12, ""), (14, ""), (15, ""), (18, "a")]));
    assert!(!list.contains(&SingleHouseNumber::new(16, "")));
}

#[test]
fn subdivided_number() {
    let list = HouseNumberList::parse("12 a/b").unwrap();
    assert!(holds(&list, &[(12, "a"), (12, "b")]));
}

#[test]
fn single_numbers() {
    assert!(holds(&HouseNumberList::parse("7").unwrap(), &[(7, "")]));
    assert!(holds(&HouseNumberList::parse("7b").unwrap(), &[(7, "b")]));
    assert!(holds(&HouseNumberList::parse("7 B ").unwrap(), &[(7, "B")]));
    assert!(holds(&HouseNumberList::parse("007").unwrap(), &[(7, "")]));
}

#[test]
fn number_beyond_sixteen_bits_reads_as_zero() {
    assert!(holds(&HouseNumberList::parse("65535").unwrap(), &[(65535, "")]));
    assert!(holds(&HouseNumberList::parse("65536").unwrap(), &[(0, "")]));
    assert!(holds(&HouseNumberList::parse("99999999999999999999999a").unwrap(), &[(0, "a")]));
}

#[test]
fn every_separator_is_accepted() {
    let list = HouseNumberList::parse("1/2 , 3;4").unwrap();
    assert!(holds(&list, &[(1, ""), (2, ""), (3, ""), (4, "")]));
}

#[test]
fn duplicates_are_merged() {
    let list = HouseNumberList::parse("3,3,1-5,3 a/a").unwrap();
    assert!(holds(&list, &[(1, ""), (2, ""), (3, ""), (4, ""), (3, "a")]));
}

#[test]
fn range_drops_suffixes_of_its_bounds() {
    let list = HouseNumberList::parse("14a - 16b").unwrap();
    assert!(holds(&list, &[(14, ""), (15, "")]));
}

#[test]
fn descending_and_empty_ranges_hold_nothing() {
    assert_eq!(HouseNumberList::parse("16-14").unwrap().count(), 0);
    assert_eq!(HouseNumberList::parse("5-5").unwrap().count(), 0);
}

#[test]
fn suffix_list_stops_before_a_number() {
    let list = HouseNumberList::parse("12 a/14").unwrap();
    assert!(holds(&list, &[(12, "a"), (14, "")]));
}

#[test]
fn text_without_leading_number_is_refused() {
    for text in ["", "abc", " 12", "-3", "/1"] {
        match HouseNumberList::parse(text) {
            Err(ParseError::NoHouseNumberError(whole)) => assert_eq!(whole, text),
            other => panic!("{:?} gave {:?}", text, other),
        }
    }
}

#[test]
fn trailing_text_is_refused() {
    match HouseNumberList::parse("14-") {
        Err(ParseError::NotFullyConsumedError(whole, rest)) => {
            assert_eq!(whole, "14-");
            assert_eq!(rest, "-");
        }
        other => panic!("{:?}", other),
    }
    match HouseNumberList::parse("12/a") {
        Err(ParseError::NotFullyConsumedError(_, rest)) => assert_eq!(rest, "/a"),
        other => panic!("{:?}", other),
    }
    match HouseNumberList::parse("12 é") {
        Err(ParseError::NotFullyConsumedError(_, rest)) => assert_eq!(rest, "é"),
        other => panic!("{:?}", other),
    }
    match HouseNumberList::parse("1, 2 ?") {
        Err(ParseError::NotFullyConsumedError(_, rest)) => assert_eq!(rest, "?"),
        other => panic!("{:?}", other),
    }
}

#[test]
fn entries_give_their_singles_in_order() {
    let single = HouseNumber::Single(SingleHouseNumber::new(4, "c"));
    assert_eq!(single.singles(), vec![SingleHouseNumber::new(4, "c")]);
    let subdivided =
        HouseNumber::Subdivided(Subdivisions::new(9, vec!["b".to_string(), "a".to_string()]));
    assert_eq!(
        subdivided.singles(),
        vec![SingleHouseNumber::new(9, "b"), SingleHouseNumber::new(9, "a")]
    );
    let range = HouseNumber::Range(SingleHouseNumber::new(3, "x"), SingleHouseNumber::plain(6));
    assert_eq!(
        range.singles(),
        vec![
            SingleHouseNumber::plain(3),
            SingleHouseNumber::plain(4),
            SingleHouseNumber::plain(5)
        ]
    );
}

#[test]
fn merge_is_union() {
    let mut left = HouseNumberList::parse("1,2a").unwrap();
    let right = HouseNumberList::parse("2a,3").unwrap();
    left.merge(right);
    assert!(holds(&left, &[(1, ""), (2, "a"), (3, "")]));
}

#[test]
fn merge_with_itself_changes_nothing() {
    let mut list = HouseNumberList::parse("1-4,9 a/b").unwrap();
    let same = HouseNumberList::parse("1-4,9 a/b").unwrap();
    list.merge(same);
    assert!(holds(&list, &[(1, ""), (2, ""), (3, ""), (9, "a"), (9, "b")]));
}

#[test]
fn merge_in_either_order_gives_the_same_set() {
    let mut one = HouseNumberList::parse("1,2,7c").unwrap();
    one.merge(HouseNumberList::parse("2,5").unwrap());
    let mut other = HouseNumberList::parse("2,5").unwrap();
    other.merge(HouseNumberList::parse("1,2,7c").unwrap());
    assert_eq!(one.count(), other.count());
    for single in one.to_vec() {
        assert!(other.contains(&single));
    }
}

#[test]
fn empty_list_counts_zero() {
    assert_eq!(HouseNumberList::new().count(), 0);
    assert_eq!(HouseNumberList::default().count(), 0);
}

#[test]
fn long_range_is_read() {
    let list = HouseNumberList::parse("1-3001").unwrap();
    assert_eq!(list.count(), 3000);
    assert!(list.contains(&SingleHouseNumber::plain(3000)));
    assert!(!list.contains(&SingleHouseNumber::plain(3001)));
}

#[test]
fn errors_say_what_was_wrong() {
    assert_eq!(
        HouseNumberList::parse("14-x").unwrap_err().to_string(),
        "Parsing failed for string 14-x, with rest -x"
    );
    assert_eq!(
        HouseNumberList::parse("x").unwrap_err().to_string(),
        "Parsing failed for string x, which does not begin with a house number"
    );
}
