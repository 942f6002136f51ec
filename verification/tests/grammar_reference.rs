use nom::branch::alt;
use nom::character::complete::{alpha0, alpha1, char, digit1, multispace0};
use nom::multi::separated_list1;
use nom::sequence::{delimited, pair, separated_pair};
use nom::IResult;
use openhousepopulator::parser::housenumber::{HouseNumberList, ParseError, SingleHouseNumber};
use rand::rngs::StdRng;
use rand::{Rng, SeedableRng};
use std::collections::HashSet;

type Single = (u16, String);

fn delimiter(input: &str) -> IResult<&str, char> {
    alt((
        delimited(multispace0, char('/'), multispace0),
        delimited(multispace0, char(','), multispace0),
        delimited(multispace0, char(';'), multispace0),
    ))(input)
}

fn single(input: &str) -> IResult<&str, Single> {
    let (rest, (number, letters)) =
        pair(digit1, delimited(multispace0, alpha0, multispace0))(input)?;
    Ok((rest, (number.parse().unwrap_or_default(), letters.to_string())))
}

fn subdivided(input: &str) -> IResult<&str, Vec<Single>> {
    let (rest, (number, letters)) = pair(
        digit1,
        delimited(multispace0, separated_list1(delimiter, alpha1), multispace0),
    )(input)?;
    let number: u16 = number.parse().unwrap_or_default();
    Ok((rest, letters.iter().map(|l| (number, l.to_string())).collect()))
}

fn range(input: &str) -> IResult<&str, Vec<Single>> {
    let (rest, (low, high)) =
        separated_pair(single, delimited(multispace0, char('-'), multispace0), single)(input)?;
    Ok((rest, (low.0..high.0).map(|n| (n, String::new())).collect()))
}

fn one(input: &str) -> IResult<&str, Vec<Single>> {
    let (rest, found) = single(input)?;
    Ok((rest, vec![found]))
}

fn entry(input: &str) -> IResult<&str, Vec<Single>> {
    alt((range, subdivided, one))(input)
}

/// The grammar written with parser combinators: the set and what is left.
fn reference(input: &str) -> Option<(HashSet<Single>, String)> {
    match separated_list1(delimiter, entry)(input) {
        Ok((rest, entries)) => Some((entries.into_iter().flatten().collect(), rest.to_string())),
        Err(_) => None,
    }
}

fn agree(text: &str) {
    let expected = reference(text);
    match (HouseNumberList::parse(text), expected) {
        (Ok(list), Some((set, rest))) => {
            assert_eq!(rest, "", "{:?}", text);
            assert_eq!(list.count(), set.len(), "{:?}", text);
            for (number, suffix) in set {
                assert!(list.contains(&SingleHouseNumber::new(number, &suffix)), "{:?}", text);
            }
        }
        (Err(ParseError::NotFullyConsumedError(_, left)), Some((_, rest))) => {
            assert_eq!(left, rest, "{:?}", text);
            assert_ne!(rest, "", "{:?}", text);
        }
        (Err(ParseError::NoHouseNumberError(_)), None) => {}
        (got, wanted) => panic!("{:?}: {:?} against {:?}", text, got, wanted),
    }
}

#[test]
fn agrees_with_combinator_grammar_on_chosen_texts() {
    for text in [
        "", "1", "12a", "12 a", "12 a/b", "12 a / b ; c", "12a,13b", "12,14-16,18a", "1-3-5",
        "1 - 3", "1- 3 a", "1a-3b/4", "3 a/4-6", "3 a/b-6", "3 a/b/", "3;", "3;;4", " 3", "3 ",
        "3\t\n a \r/ b", "12/a", "12 / a", "0", "00012", "65535", "65536", "70000-70002",
        "65530-65535", "10-5", "5 - 5", "12 ab/cd/ef,7", "12ä", "12 a/ä", "1,2;3/4", "1 a-2",
        "1 a -2 b/c", "12a13", "12 13", "12 a 13", "9-", "9-a", "9 -", "9/", "a9", "-", "1--2",
        "1,,2", "1 , , 2", "1.5", "1 a/b c", "1 a/b/c d/e", "１２", "12 A/b", "12 Z z",
    ] {
        agree(text);
    }
}

#[test]
fn agrees_with_combinator_grammar_on_all_short_texts() {
    let letters = ['1', '2', 'a', 'B', ' ', '/', '-', ',', ';', 'é'];
    let mut texts = vec![String::new()];
    for _ in 0..5 {
        let mut longer = Vec::new();
        for text in &texts {
            for letter in letters {
                let mut next = text.clone();
                next.push(letter);
                longer.push(next);
            }
        }
        for text in &longer {
            agree(text);
        }
        texts = longer;
    }
}

#[test]
fn agrees_with_combinator_grammar_on_random_texts() {
    let letters = [
        '0', '1', '2', '3', '5', '9', 'a', 'b', 'Z', ' ', ' ', '\t', '\n', '/', '/', '-', '-', ',',
        ';', '.', '+', 'ß', '٣',
    ];
    let mut rng = StdRng::seed_from_u64(20240229);
    for _ in 0..60_000 {
        let length = rng.gen_range(1..14);
        let mut text = String::from(if rng.gen_range(0..8) == 0 { "" } else { "1" });
        for _ in 0..length {
            text.push(letters[rng.gen_range(0..letters.len())]);
        }
        agree(&text);
    }
}
