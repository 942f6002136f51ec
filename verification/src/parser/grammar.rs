//! The grammar of house-number texts.
//!
//! A text is a list of entries separated by `/`, `,` or `;`. An entry is a
//! range (`14-16`), a subdivided number (`12 a/b`) or a single number (`12`),
//! tried in this order; each alternative takes as much of the text as it can
//! and the first that fits is kept. White space may surround separators, the
//! dash and suffixes, but not stand before the first number.
//!
//! The grammar is stated here as functions of a sequence of characters and a
//! position in it.

use crate::text::{decimal_value, in_class, lemma_run_end, run_end, CharClass};
use vstd::prelude::*;

verus! {

/// The mathematical form of an atomic house number: its number and its suffix.
pub type Single = (u16, Seq<char>);

/// The mathematical form of one entry of a house-number text.
pub enum Entry {
    /// One number with its suffix.
    Single(Single),
    /// One number shared by several suffixes.
    Subdivided(u16, Seq<Seq<char>>),
    /// The numbers from the first bound up to, but without, the second.
    Range(Single, Single),
}

/// The number that a run of digits stands for: its value in base ten where
/// that fits in sixteen bits, and zero where it does not.
pub open spec fn number_of(digits: Seq<char>) -> u16 {
    if decimal_value(digits) <= u16::MAX {
        decimal_value(digits) as u16
    } else {
        0
    }
}

/// Whether `c` separates the entries of a list and the suffixes of a
/// subdivided number.
pub open spec fn is_separator(c: char) -> bool {
    c == '/' || c == ',' || c == ';'
}

/// A single number at `at`: digits, then an optional run of letters, with
/// white space allowed before and after the letters. Gives the number and the
/// position after it.
pub open spec fn single_at(s: Seq<char>, at: int) -> Option<(Single, int)> {
    let digits_end = run_end(s, at, CharClass::Digit);
    if digits_end <= at {
        None
    } else {
        let letters = run_end(s, digits_end, CharClass::Space);
        let letters_end = run_end(s, letters, CharClass::Letter);
        Some(
            (
                (number_of(s.subrange(at, digits_end)), s.subrange(letters, letters_end)),
                run_end(s, letters_end, CharClass::Space),
            ),
        )
    }
}

/// A separator at `at`, with the white space around it. Gives the position
/// after it.
pub open spec fn separator_at(s: Seq<char>, at: int) -> Option<int> {
    let mark = run_end(s, at, CharClass::Space);
    if 0 <= mark < s.len() && is_separator(s[mark]) {
        Some(run_end(s, mark + 1, CharClass::Space))
    } else {
        None
    }
}

/// A dash at `at`, with the white space around it. Gives the position after it.
pub open spec fn dash_at(s: Seq<char>, at: int) -> Option<int> {
    let mark = run_end(s, at, CharClass::Space);
    if 0 <= mark < s.len() && s[mark] == '-' {
        Some(run_end(s, mark + 1, CharClass::Space))
    } else {
        None
    }
}

/// The suffixes that follow a first suffix which ended at `after`: as long as
/// a separator and a run of letters follow, the letters are one more suffix.
/// Gives the further suffixes and the position after the last of them.
pub open spec fn more_suffixes(s: Seq<char>, after: int) -> (Seq<Seq<char>>, int)
    decreases s.len() - after,
    via more_suffixes_ends
{
    if 0 <= after <= s.len() {
        match separator_at(s, after) {
            None => (Seq::empty(), after),
            Some(letters) => {
                let letters_end = run_end(s, letters, CharClass::Letter);
                if letters_end <= letters {
                    (Seq::empty(), after)
                } else {
                    let rest = more_suffixes(s, letters_end);
                    (seq![s.subrange(letters, letters_end)] + rest.0, rest.1)
                }
            },
        }
    } else {
        (Seq::empty(), after)
    }
}

#[via_fn]
proof fn more_suffixes_ends(s: Seq<char>, after: int) {
    if 0 <= after <= s.len() {
        lemma_separator_at(s, after);
        if let Some(letters) = separator_at(s, after) {
            lemma_run_end(s, letters, CharClass::Letter);
        }
    }
}

/// A separator takes at least one character and stays inside the text.
pub proof fn lemma_separator_at(s: Seq<char>, at: int)
    requires
        0 <= at <= s.len(),
    ensures
        separator_at(s, at) matches Some(end) ==> at < end <= s.len(),
{
    lemma_run_end(s, at, CharClass::Space);
    let mark = run_end(s, at, CharClass::Space);
    if mark < s.len() {
        lemma_run_end(s, mark + 1, CharClass::Space);
    }
}

/// A dash takes at least one character and stays inside the text.
pub proof fn lemma_dash_at(s: Seq<char>, at: int)
    requires
        0 <= at <= s.len(),
    ensures
        dash_at(s, at) matches Some(end) ==> at < end <= s.len(),
{
    lemma_run_end(s, at, CharClass::Space);
    let mark = run_end(s, at, CharClass::Space);
    if mark < s.len() {
        lemma_run_end(s, mark + 1, CharClass::Space);
    }
}

/// A single number takes at least one character and stays inside the text.
pub proof fn lemma_single_at(s: Seq<char>, at: int)
    requires
        0 <= at <= s.len(),
    ensures
        single_at(s, at) matches Some((_, end)) ==> at < end <= s.len(),
        single_at(s, at) is Some <==> (at < s.len() && in_class(s[at], CharClass::Digit)),
{
    lemma_run_end(s, at, CharClass::Digit);
    let digits_end = run_end(s, at, CharClass::Digit);
    if at < digits_end {
        lemma_run_end(s, digits_end, CharClass::Space);
        let letters = run_end(s, digits_end, CharClass::Space);
        lemma_run_end(s, letters, CharClass::Letter);
        lemma_run_end(s, run_end(s, letters, CharClass::Letter), CharClass::Space);
    }
}

/// A subdivided number at `at`: digits, then one or more suffixes, with white
/// space allowed before the first suffix and after the last. Gives the number,
/// the suffixes and the position after them.
pub open spec fn subdivided_at(s: Seq<char>, at: int) -> Option<((u16, Seq<Seq<char>>), int)> {
    let digits_end = run_end(s, at, CharClass::Digit);
    if digits_end <= at {
        None
    } else {
        let letters = run_end(s, digits_end, CharClass::Space);
        let letters_end = run_end(s, letters, CharClass::Letter);
        if letters_end <= letters {
            None
        } else {
            let rest = more_suffixes(s, letters_end);
            Some(
                (
                    (
                        number_of(s.subrange(at, digits_end)),
                        seq![s.subrange(letters, letters_end)] + rest.0,
                    ),
                    run_end(s, rest.1, CharClass::Space),
                ),
            )
        }
    }
}

/// A range at `at`: a single number, a dash and a single number. Gives the two
/// bounds and the position after the second.
pub open spec fn range_at(s: Seq<char>, at: int) -> Option<((Single, Single), int)> {
    match single_at(s, at) {
        None => None,
        Some((low, dash)) => match dash_at(s, dash) {
            None => None,
            Some(second) => match single_at(s, second) {
                None => None,
                Some((high, end)) => Some(((low, high), end)),
            },
        },
    }
}

/// An entry at `at`: a range, else a subdivided number, else a single number.
pub open spec fn entry_at(s: Seq<char>, at: int) -> Option<(Entry, int)> {
    match range_at(s, at) {
        Some(((low, high), end)) => Some((Entry::Range(low, high), end)),
        None => match subdivided_at(s, at) {
            Some(((number, suffixes), end)) => Some((Entry::Subdivided(number, suffixes), end)),
            None => match single_at(s, at) {
                Some((single, end)) => Some((Entry::Single(single), end)),
                None => None,
            },
        },
    }
}

/// The entries that follow a first entry which ended at `after`: as long as a
/// separator and an entry follow, the entry is one more of the list. Gives the
/// further entries and the position after the last of them.
pub open spec fn more_entries(s: Seq<char>, after: int) -> (Seq<Entry>, int)
    decreases s.len() - after,
    via more_entries_ends
{
    if 0 <= after <= s.len() {
        match separator_at(s, after) {
            None => (Seq::empty(), after),
            Some(next) => match entry_at(s, next) {
                None => (Seq::empty(), after),
                Some((entry, end)) => {
                    let rest = more_entries(s, end);
                    (seq![entry] + rest.0, rest.1)
                },
            },
        }
    } else {
        (Seq::empty(), after)
    }
}

#[via_fn]
proof fn more_entries_ends(s: Seq<char>, after: int) {
    if 0 <= after <= s.len() {
        lemma_separator_at(s, after);
        if let Some(next) = separator_at(s, after) {
            lemma_entry_at(s, next);
        }
    }
}

/// The further suffixes end inside the text, at or after the place where they
/// were looked for.
pub proof fn lemma_more_suffixes(s: Seq<char>, after: int)
    requires
        0 <= after <= s.len(),
    ensures
        after <= more_suffixes(s, after).1 <= s.len(),
    decreases s.len() - after,
{
    lemma_separator_at(s, after);
    if let Some(letters) = separator_at(s, after) {
        lemma_run_end(s, letters, CharClass::Letter);
        let letters_end = run_end(s, letters, CharClass::Letter);
        if letters_end > letters {
            lemma_more_suffixes(s, letters_end);
        }
    }
}

/// An entry takes at least one character and stays inside the text; there is
/// one exactly where a digit stands.
pub proof fn lemma_entry_at(s: Seq<char>, at: int)
    requires
        0 <= at <= s.len(),
    ensures
        entry_at(s, at) matches Some((_, end)) ==> at < end <= s.len(),
        entry_at(s, at) is Some <==> (at < s.len() && in_class(s[at], CharClass::Digit)),
{
    lemma_single_at(s, at);
    if let Some((_, dash)) = single_at(s, at) {
        lemma_dash_at(s, dash);
        if let Some(second) = dash_at(s, dash) {
            lemma_single_at(s, second);
        }
    }
    lemma_run_end(s, at, CharClass::Digit);
    let digits_end = run_end(s, at, CharClass::Digit);
    if at < digits_end {
        lemma_run_end(s, digits_end, CharClass::Space);
        let letters = run_end(s, digits_end, CharClass::Space);
        lemma_run_end(s, letters, CharClass::Letter);
        let letters_end = run_end(s, letters, CharClass::Letter);
        if letters < letters_end {
            lemma_more_suffixes(s, letters_end);
            lemma_run_end(s, more_suffixes(s, letters_end).1, CharClass::Space);
        }
    }
}

/// The list of entries with which `s` begins, and the position after it.
/// There is none where `s` does not begin with an entry.
pub open spec fn entries_of(s: Seq<char>) -> Option<(Seq<Entry>, int)> {
    match entry_at(s, 0) {
        None => None,
        Some((first, end)) => {
            let rest = more_entries(s, end);
            Some((seq![first] + rest.0, rest.1))
        },
    }
}

/// The atomic house numbers that an entry stands for, in the order in which
/// the entry gives them.
pub open spec fn singles_of(entry: Entry) -> Seq<Single> {
    match entry {
        Entry::Single(single) => seq![single],
        Entry::Subdivided(number, suffixes) => Seq::new(
            suffixes.len(),
            |i: int| (number, suffixes[i]),
        ),
        Entry::Range(low, high) => Seq::new(
            if low.0 < high.0 {
                (high.0 - low.0) as nat
            } else {
                0
            },
            |i: int| ((low.0 + i) as u16, Seq::<char>::empty()),
        ),
    }
}

/// The set of the atomic house numbers that the entries stand for.
pub open spec fn singles_of_all(entries: Seq<Entry>) -> Set<Single>
    decreases entries.len(),
{
    if entries.len() == 0 {
        Set::empty()
    } else {
        singles_of_all(entries.drop_last()).union(singles_of(entries.last()).to_set())
    }
}

/// Why a text is not a list of house numbers.
pub enum Malformed {
    /// The text does not begin with a digit: it holds no house number at its
    /// start.
    NoHouseNumber,
    /// The text begins with a list of house numbers which ends at `rest`, and
    /// goes on after it.
    NotFullyConsumed { rest: int },
}

/// What a house-number text means: the set of its atomic house numbers where
/// the whole text is a list of entries, and the reason where it is not.
pub open spec fn meaning_of(s: Seq<char>) -> Result<Set<Single>, Malformed> {
    match entries_of(s) {
        None => Err(Malformed::NoHouseNumber),
        Some((entries, end)) => if end == s.len() {
            Ok(singles_of_all(entries))
        } else {
            Err(Malformed::NotFullyConsumed { rest: end })
        },
    }
}

/// A text is refused for want of a house number exactly where it is empty or
/// begins with something other than a digit.
pub proof fn refused_without_leading_digit(text: Seq<char>)
    ensures
        meaning_of(text) == Err::<Set<Single>, Malformed>(Malformed::NoHouseNumber) <==> (
        text.len() == 0 || !in_class(text[0], CharClass::Digit)),
{
    lemma_entry_at(text, 0);
}

/// Whether `text` holds letters only.
pub open spec fn is_letters(text: Seq<char>) -> bool {
    forall|i: int| 0 <= i < text.len() ==> in_class(#[trigger] text[i], CharClass::Letter)
}

/// Whether the suffixes of all house numbers of `entry` hold letters only.
pub open spec fn has_letter_suffixes(entry: Entry) -> bool {
    forall|k: int| 0 <= k < singles_of(entry).len() ==> is_letters((#[trigger] singles_of(entry)[k]).1)
}

/// A run of letters holds letters only.
proof fn lemma_letter_run(s: Seq<char>, from: int)
    requires
        0 <= from <= s.len(),
    ensures
        is_letters(s.subrange(from, run_end(s, from, CharClass::Letter))),
{
    lemma_run_end(s, from, CharClass::Letter);
    let end = run_end(s, from, CharClass::Letter);
    assert forall|i: int| 0 <= i < s.subrange(from, end).len() implies in_class(
        #[trigger] s.subrange(from, end)[i],
        CharClass::Letter,
    ) by {
        assert(s.subrange(from, end)[i] == s[from + i]);
    }
}

/// The further suffixes of a subdivided number hold letters only.
proof fn lemma_more_suffixes_letters(s: Seq<char>, after: int)
    requires
        0 <= after <= s.len(),
    ensures
        forall|k: int|
            0 <= k < more_suffixes(s, after).0.len() ==> is_letters(
                #[trigger] more_suffixes(s, after).0[k],
            ),
    decreases s.len() - after,
{
    lemma_separator_at(s, after);
    if let Some(letters) = separator_at(s, after) {
        lemma_run_end(s, letters, CharClass::Letter);
        let letters_end = run_end(s, letters, CharClass::Letter);
        if letters_end > letters {
            lemma_letter_run(s, letters);
            lemma_more_suffixes_letters(s, letters_end);
            let rest = more_suffixes(s, letters_end).0;
            assert forall|k: int| 0 <= k < more_suffixes(s, after).0.len() implies is_letters(
                #[trigger] more_suffixes(s, after).0[k],
            ) by {
                if k > 0 {
                    assert(more_suffixes(s, after).0[k] == rest[k - 1]);
                }
            }
        }
    }
}

/// The house numbers of an entry of a text have suffixes of letters only.
proof fn lemma_entry_letters(s: Seq<char>, at: int)
    requires
        0 <= at <= s.len(),
    ensures
        entry_at(s, at) matches Some((entry, _)) ==> has_letter_suffixes(entry),
{
    lemma_run_end(s, at, CharClass::Digit);
    let digits_end = run_end(s, at, CharClass::Digit);
    if at < digits_end {
        lemma_run_end(s, digits_end, CharClass::Space);
        let letters = run_end(s, digits_end, CharClass::Space);
        lemma_letter_run(s, letters);
        lemma_run_end(s, letters, CharClass::Letter);
        let letters_end = run_end(s, letters, CharClass::Letter);
        if letters < letters_end {
            lemma_more_suffixes_letters(s, letters_end);
        }
        let found = entry_at(s, at)->0;
        let entry = found.0;
        assert forall|k: int| 0 <= k < singles_of(entry).len() implies is_letters(
            (#[trigger] singles_of(entry)[k]).1,
        ) by {
            match entry {
                Entry::Single(_) => {},
                Entry::Subdivided(_, suffixes) => {
                    if k > 0 {
                        assert(suffixes[k] == more_suffixes(s, letters_end).0[k - 1]);
                    }
                },
                Entry::Range(_, _) => {},
            }
        }
    }
}

/// The house numbers of the further entries of a text have suffixes of
/// letters only.
proof fn lemma_more_entries_letters(s: Seq<char>, after: int)
    requires
        0 <= after <= s.len(),
    ensures
        forall|k: int|
            0 <= k < more_entries(s, after).0.len() ==> has_letter_suffixes(
                #[trigger] more_entries(s, after).0[k],
            ),
    decreases s.len() - after,
{
    lemma_separator_at(s, after);
    if let Some(next) = separator_at(s, after) {
        lemma_entry_at(s, next);
        lemma_entry_letters(s, next);
        if let Some((_, end)) = entry_at(s, next) {
            lemma_more_entries_letters(s, end);
            let rest = more_entries(s, end).0;
            assert forall|k: int|
                0 <= k < more_entries(s, after).0.len() implies has_letter_suffixes(
                #[trigger] more_entries(s, after).0[k],
            ) by {
                if k > 0 {
                    assert(more_entries(s, after).0[k] == rest[k - 1]);
                }
            }
        }
    }
}

/// A house number of a list of entries is a house number of one of them.
proof fn lemma_singles_of_all(entries: Seq<Entry>, single: Single)
    requires
        singles_of_all(entries).contains(single),
    ensures
        exists|k: int|
            0 <= k < entries.len() && (#[trigger] singles_of(entries[k])).contains(single),
    decreases entries.len(),
{
    if entries.len() > 0 {
        if singles_of(entries.last()).to_set().contains(single) {
            assert(singles_of(entries[entries.len() - 1]).contains(single));
        } else {
            lemma_singles_of_all(entries.drop_last(), single);
            let k = choose|k: int|
                0 <= k < entries.drop_last().len() && (#[trigger] singles_of(
                    entries.drop_last()[k],
                )).contains(single);
            assert(singles_of(entries[k]).contains(single));
        }
    }
}

/// Every house number that a text stands for has a suffix of letters only.
pub proof fn suffixes_are_letters(text: Seq<char>, single: Single)
    requires
        meaning_of(text) matches Ok(numbers) && numbers.contains(single),
    ensures
        is_letters(single.1),
{
    lemma_entry_at(text, 0);
    lemma_entry_letters(text, 0);
    let first = entry_at(text, 0)->0;
    lemma_more_entries_letters(text, first.1);
    let listed = entries_of(text)->0;
    let entries = listed.0;
    lemma_singles_of_all(entries, single);
    let k = choose|k: int|
        0 <= k < entries.len() && (#[trigger] singles_of(entries[k])).contains(single);
    assert(has_letter_suffixes(entries[k])) by {
        if k > 0 {
            assert(entries[k] == more_entries(text, first.1).0[k - 1]);
        }
    }
    let at = choose|i: int| 0 <= i < singles_of(entries[k]).len() && singles_of(entries[k])[i] == single;
    assert(is_letters(singles_of(entries[k])[at].1));
}

} // verus!
