//! House numbers as they are written on address points: single numbers,
//! subdivided numbers and ranges, and the set of atomic numbers they stand for.

use crate::parser::grammar::{
    dash_at, entries_of, entry_at, lemma_dash_at, lemma_entry_at, lemma_separator_at,
    lemma_single_at, meaning_of, more_entries, more_suffixes, number_of, range_at, separator_at,
    single_at, singles_of, singles_of_all, subdivided_at, Entry, Malformed, Single,
};
use crate::text::{chars_of, decimal_within, lemma_run_end, run_end, scan_run, CharClass};
use vstd::prelude::*;
use vstd::string::{StrSliceExecFns, StringExecFns};

verus! {

/// An atomic address unit: a number and a suffix, which may be empty.
/// Two of them are equal where both parts are.
#[derive(Debug, Eq, PartialOrd, Ord, Hash)]
pub struct SingleHouseNumber(u16, String);

impl View for SingleHouseNumber {
    type V = Single;

    closed spec fn view(&self) -> Single {
        (self.0, self.1@)
    }
}

impl DeepView for SingleHouseNumber {
    type V = Single;

    open spec fn deep_view(&self) -> Single {
        self@
    }
}

impl PartialEq for SingleHouseNumber {
    fn eq(&self, other: &Self) -> (r: bool) {
        self.0 == other.0 && self.1 == other.1
    }
}

impl vstd::std_specs::cmp::PartialEqSpecImpl for SingleHouseNumber {
    open spec fn obeys_eq_spec() -> bool {
        true
    }

    open spec fn eq_spec(&self, other: &Self) -> bool {
        self@ == other@
    }
}

impl Clone for SingleHouseNumber {
    fn clone(&self) -> (r: Self)
        ensures
            r@ == self@,
    {
        SingleHouseNumber(self.0, self.1.clone())
    }
}

impl SingleHouseNumber {
    /// The house number `number` with the suffix `suffix`.
    pub fn new(number: u16, suffix: &str) -> (r: Self)
        ensures
            r@ == (number, suffix@),
    {
        SingleHouseNumber(number, suffix.to_owned())
    }

    /// The house number `number` without a suffix.
    pub fn plain(number: u16) -> (r: Self)
        ensures
            r@ == (number, Seq::<char>::empty()),
    {
        SingleHouseNumber(number, String::new())
    }

    /// The numeric part.
    pub fn number(&self) -> (r: u16)
        ensures
            r == self@.0,
    {
        self.0
    }

    /// The suffix, empty where the house number has none.
    pub fn suffix(&self) -> (r: &str)
        ensures
            r@ == self@.1,
    {
        self.1.as_str()
    }
}

/// One number shared by several suffixes, as in `12 a/b`.
#[derive(Debug, PartialEq, Eq, PartialOrd, Ord, Hash)]
pub struct Subdivisions(u16, Vec<String>);

impl View for Subdivisions {
    type V = (u16, Seq<Seq<char>>);

    closed spec fn view(&self) -> (u16, Seq<Seq<char>>) {
        (self.0, self.1.deep_view())
    }
}

impl Subdivisions {
    /// The number `number` with each of `suffixes`.
    pub fn new(number: u16, suffixes: Vec<String>) -> (r: Self)
        ensures
            r@ == (number, suffixes.deep_view()),
    {
        Subdivisions(number, suffixes)
    }

    /// The number.
    pub fn number(&self) -> (r: u16)
        ensures
            r == self@.0,
    {
        self.0
    }

    /// The suffixes, in their order.
    pub fn suffixes(&self) -> (r: &Vec<String>)
        ensures
            r.deep_view() == self@.1,
    {
        &self.1
    }

    /// One atomic house number for each suffix, in their order.
    pub fn singles(&self) -> (r: Vec<SingleHouseNumber>)
        ensures
            r.deep_view() == singles_of(Entry::Subdivided(self@.0, self@.1)),
    {
        let mut out: Vec<SingleHouseNumber> = Vec::new();
        let mut i: usize = 0;
        while i < self.1.len()
            invariant
                i <= self.1.len(),
                out.len() == i,
                forall|j: int| 0 <= j < i ==> (#[trigger] out@[j])@ == (self.0, self.1@[j]@),
            decreases self.1.len() - i,
        {
            out.push(SingleHouseNumber::new(self.0, self.1[i].as_str()));
            i += 1;
        }
        assert(out.deep_view() =~= singles_of(Entry::Subdivided(self@.0, self@.1)));
        out
    }
}

/// One entry of a house-number text.
#[derive(Debug, PartialEq, Eq, PartialOrd, Ord, Hash)]
pub enum HouseNumber {
    /// One number with its suffix.
    Single(SingleHouseNumber),
    /// One number shared by several suffixes.
    Subdivided(Subdivisions),
    /// The numbers from the first bound up to, but without, the second; the
    /// suffixes of the bounds play no part.
    Range(SingleHouseNumber, SingleHouseNumber),
}

impl View for HouseNumber {
    type V = Entry;

    open spec fn view(&self) -> Entry {
        match self {
            HouseNumber::Single(single) => Entry::Single(single@),
            HouseNumber::Subdivided(subdivisions) => Entry::Subdivided(
                subdivisions@.0,
                subdivisions@.1,
            ),
            HouseNumber::Range(low, high) => Entry::Range(low@, high@),
        }
    }
}

impl DeepView for HouseNumber {
    type V = Entry;

    open spec fn deep_view(&self) -> Entry {
        self@
    }
}

impl HouseNumber {
    /// The atomic house numbers that the entry stands for, in order: the number
    /// itself, one number for each suffix, or the suffix-less numbers of the
    /// range, of which there are none where the second bound is not above the
    /// first.
    pub fn singles(&self) -> (r: Vec<SingleHouseNumber>)
        ensures
            r.deep_view() == singles_of(self@),
    {
        match self {
            HouseNumber::Single(single) => {
                let mut out: Vec<SingleHouseNumber> = Vec::new();
                out.push(single.clone());
                assert(out.deep_view() =~= singles_of(self@));
                out
            },
            HouseNumber::Subdivided(subdivisions) => subdivisions.singles(),
            HouseNumber::Range(low, high) => {
                let first: u16 = low.number();
                let last: u16 = high.number();
                let mut out: Vec<SingleHouseNumber> = Vec::new();
                let mut number: u16 = first;
                while number < last
                    invariant
                        first <= number,
                        first < last ==> number <= last,
                        first >= last ==> number == first,
                        out.len() == number - first,
                        forall|j: int|
                            0 <= j < out.len() ==> (#[trigger] out@[j])@ == (
                                (first + j) as u16,
                                Seq::<char>::empty(),
                            ),
                    decreases last - number,
                {
                    out.push(SingleHouseNumber::plain(number));
                    number += 1;
                }
                assert(out.deep_view() =~= singles_of(self@));
                out
            },
        }
    }
}

/// A set of atomic house numbers: no number with its suffix is held twice.
#[derive(Debug)]
pub struct HouseNumberList(Vec<SingleHouseNumber>);

impl View for HouseNumberList {
    type V = Set<Single>;

    closed spec fn view(&self) -> Set<Single> {
        self.0.deep_view().to_set()
    }
}

impl Default for HouseNumberList {
    fn default() -> (r: Self)
        ensures
            r@ == Set::<Single>::empty(),
    {
        HouseNumberList::new()
    }
}

impl HouseNumberList {
    #[verifier::type_invariant]
    spec fn distinct(&self) -> bool {
        self.0.deep_view().no_duplicates()
    }

    /// The empty set.
    pub fn new() -> (r: Self)
        ensures
            r@ == Set::<Single>::empty(),
    {
        let items: Vec<SingleHouseNumber> = Vec::new();
        assert(items.deep_view() =~= Seq::<Single>::empty());
        assert(items.deep_view().to_set() =~= Set::<Single>::empty());
        HouseNumberList(items)
    }

    /// Whether the set holds `single`.
    pub fn contains(&self, single: &SingleHouseNumber) -> (r: bool)
        ensures
            r == self@.contains(single@),
    {
        let mut i: usize = 0;
        while i < self.0.len()
            invariant
                i <= self.0.len(),
                forall|j: int| 0 <= j < i ==> (#[trigger] self.0@[j])@ != single@,
            decreases self.0.len() - i,
        {
            if self.0[i] == *single {
                assert(self.0.deep_view()[i as int] == single@);
                return true;
            }
            i += 1;
        }
        false
    }

    /// Puts `single` into the set; a set that holds it already stays as it is.
    pub fn insert(&mut self, single: SingleHouseNumber)
        ensures
            final(self)@ == old(self)@.insert(single@),
    {
        if !self.contains(&single) {
            proof {
                use_type_invariant(&*self);
            }
            let ghost before = self.0.deep_view();
            let mut items: Vec<SingleHouseNumber> = Vec::new();
            std::mem::swap(&mut self.0, &mut items);
            items.push(single);
            proof {
                assert(items.deep_view() =~= before.push(single@));
                before.lemma_push_to_set_commute(single@);
                assert(before.push(single@).no_duplicates());
            }
            std::mem::swap(&mut self.0, &mut items);
        } else {
            assert(self@.insert(single@) =~= self@);
        }
    }

    /// Set union: afterwards the set holds what it held and what `other` held.
    pub fn merge(&mut self, other: HouseNumberList)
        ensures
            final(self)@ == old(self)@.union(other@),
    {
        let mut i: usize = 0;
        while i < other.0.len()
            invariant
                i <= other.0.len(),
                self@ == old(self)@.union(other.0.deep_view().take(i as int).to_set()),
            decreases other.0.len() - i,
        {
            let ghost done = other.0.deep_view().take(i as int);
            self.insert(other.0[i].clone());
            proof {
                let next = other.0.deep_view().take(i + 1);
                assert(next =~= done.push(other.0@[i as int]@));
                done.lemma_push_to_set_commute(other.0@[i as int]@);
                assert(old(self)@.union(done.to_set()).insert(other.0@[i as int]@) =~= old(
                    self,
                )@.union(next.to_set()));
            }
            i += 1;
        }
        assert(other.0.deep_view().take(i as int) =~= other.0.deep_view());
    }

    /// The atomic house numbers of the set, each once, in no particular order.
    pub fn to_vec(&self) -> (r: Vec<SingleHouseNumber>)
        ensures
            r.deep_view().to_set() == self@,
            r.deep_view().no_duplicates(),
            r.len() == self@.len(),
    {
        proof {
            use_type_invariant(self);
            self.0.deep_view().unique_seq_to_set();
        }
        let mut out: Vec<SingleHouseNumber> = Vec::new();
        let mut i: usize = 0;
        while i < self.0.len()
            invariant
                i <= self.0.len(),
                out.deep_view() == self.0.deep_view().take(i as int),
            decreases self.0.len() - i,
        {
            let ghost so_far = out.deep_view();
            out.push(self.0[i].clone());
            assert(out.deep_view() =~= so_far.push(self.0@[i as int]@));
            assert(so_far.push(self.0@[i as int]@) =~= self.0.deep_view().take(i + 1));
            i += 1;
        }
        assert(self.0.deep_view().take(i as int) =~= self.0.deep_view());
        out
    }

    /// The number of atomic house numbers in the set.
    pub fn count(&self) -> (r: usize)
        ensures
            r == self@.len(),
            self@.finite(),
    {
        proof {
            use_type_invariant(self);
            self.0.deep_view().unique_seq_to_set();
        }
        self.0.len()
    }
}

/// Why a text could not be read as a list of house numbers.
#[derive(Debug)]
pub enum ParseError<'a> {
    /// The text begins with house numbers and goes on after them: holds the
    /// text and the part of it that was left over.
    NotFullyConsumedError(&'a str, &'a str),
    /// The text does not begin with a house number: holds the text.
    NoHouseNumberError(&'a str),
}

impl<'a> ParseError<'a> {
    /// The error as a message for a reader.
    pub fn to_string(&self) -> (r: String)
        ensures
            r@ == match *self {
                ParseError::NotFullyConsumedError(text, rest) => "Parsing failed for string "@
                    + text@ + ", with rest "@ + rest@,
                ParseError::NoHouseNumberError(text) => "Parsing failed for string "@ + text@
                    + ", which does not begin with a house number"@,
            },
    {
        let mut message = "Parsing failed for string ".to_owned();
        match self {
            ParseError::NotFullyConsumedError(text, rest) => {
                message.append(text);
                message.append(", with rest ");
                message.append(rest);
            },
            ParseError::NoHouseNumberError(text) => {
                message.append(text);
                message.append(", which does not begin with a house number");
            },
        }
        message
    }
}

/// Reads one of `/`, `,` and `;` at `at`, with the white space around it.
fn list_delimiter(chars: &Vec<char>, at: usize) -> (r: Option<usize>)
    requires
        at <= chars.len(),
    ensures
        r is Some <==> separator_at(chars@, at as int) is Some,
        r matches Some(end) ==> separator_at(chars@, at as int) == Some(end as int) && at < end
            <= chars.len(),
{
    proof {
        lemma_separator_at(chars@, at as int);
    }
    let mark = scan_run(chars, at, CharClass::Space);
    if mark < chars.len() && (chars[mark] == '/' || chars[mark] == ',' || chars[mark] == ';') {
        Some(scan_run(chars, mark + 1, CharClass::Space))
    } else {
        None
    }
}

/// Reads a dash at `at`, with the white space around it.
fn range_dash(chars: &Vec<char>, at: usize) -> (r: Option<usize>)
    requires
        at <= chars.len(),
    ensures
        r is Some <==> dash_at(chars@, at as int) is Some,
        r matches Some(end) ==> dash_at(chars@, at as int) == Some(end as int) && at < end
            <= chars.len(),
{
    proof {
        lemma_dash_at(chars@, at as int);
    }
    let mark = scan_run(chars, at, CharClass::Space);
    if mark < chars.len() && chars[mark] == '-' {
        Some(scan_run(chars, mark + 1, CharClass::Space))
    } else {
        None
    }
}

/// Reads the number written by the digits `chars[from..to]`.
fn house_number_value(chars: &Vec<char>, from: usize, to: usize) -> (r: u16)
    requires
        from <= to <= chars.len(),
        to == run_end(chars@, from as int, CharClass::Digit),
    ensures
        r == number_of(chars@.subrange(from as int, to as int)),
{
    proof {
        lemma_run_end(chars@, from as int, CharClass::Digit);
    }
    match decimal_within(chars, from, to, 65535) {
        Some(value) => value as u16,
        None => 0,
    }
}

/// Reads a single number at `at`.
fn single_housenumber(input: &str, chars: &Vec<char>, at: usize) -> (r: Option<
    (SingleHouseNumber, usize),
>)
    requires
        chars@ == input@,
        at <= chars.len(),
    ensures
        r is Some <==> single_at(chars@, at as int) is Some,
        r matches Some((single, end)) ==> single_at(chars@, at as int) == Some(
            (single@, end as int),
        ) && at < end <= chars.len(),
{
    proof {
        lemma_single_at(chars@, at as int);
    }
    let digits_end = scan_run(chars, at, CharClass::Digit);
    if digits_end <= at {
        return None;
    }
    let number = house_number_value(chars, at, digits_end);
    let letters = scan_run(chars, digits_end, CharClass::Space);
    let letters_end = scan_run(chars, letters, CharClass::Letter);
    let end = scan_run(chars, letters_end, CharClass::Space);
    let suffix = input.substring_char(letters, letters_end);
    Some((SingleHouseNumber::new(number, suffix), end))
}

/// Reads a subdivided number at `at`.
fn subdivided_housenumber(input: &str, chars: &Vec<char>, at: usize) -> (r: Option<
    (Subdivisions, usize),
>)
    requires
        chars@ == input@,
        at <= chars.len(),
    ensures
        r is Some <==> subdivided_at(chars@, at as int) is Some,
        r matches Some((subdivisions, end)) ==> subdivided_at(chars@, at as int) == Some(
            (subdivisions@, end as int),
        ) && at < end <= chars.len(),
{
    let digits_end = scan_run(chars, at, CharClass::Digit);
    if digits_end <= at {
        return None;
    }
    let number = house_number_value(chars, at, digits_end);
    let letters = scan_run(chars, digits_end, CharClass::Space);
    let letters_end = scan_run(chars, letters, CharClass::Letter);
    if letters_end <= letters {
        return None;
    }
    let mut suffixes: Vec<String> = Vec::new();
    suffixes.push(input.substring_char(letters, letters_end).to_owned());
    let ghost first = chars@.subrange(letters as int, letters_end as int);
    let ghost all = more_suffixes(chars@, letters_end as int);
    assert(suffixes.deep_view() =~= seq![first]);
    let mut after: usize = letters_end;
    loop
        invariant
            chars@ == input@,
            letters_end <= after <= chars.len(),
            suffixes.deep_view() + more_suffixes(chars@, after as int).0 == seq![first] + all.0,
            more_suffixes(chars@, after as int).1 == all.1,
        ensures
            after <= chars.len(),
            suffixes.deep_view() == seq![first] + all.0,
            after == all.1,
        decreases chars.len() - after,
    {
        let ghost so_far = suffixes.deep_view();
        let ghost rest = more_suffixes(chars@, after as int);
        match list_delimiter(chars, after) {
            None => {
                assert(so_far + rest.0 =~= so_far);
                break ;
            },
            Some(next) => {
                let next_end = scan_run(chars, next, CharClass::Letter);
                if next_end <= next {
                    assert(so_far + rest.0 =~= so_far);
                    break ;
                }
                suffixes.push(input.substring_char(next, next_end).to_owned());
                proof {
                    let found = chars@.subrange(next as int, next_end as int);
                    let tail = more_suffixes(chars@, next_end as int);
                    assert(suffixes.deep_view() =~= so_far.push(found));
                    assert(rest.0 == seq![found] + tail.0);
                    assert(so_far.push(found) + tail.0 =~= so_far + (seq![found] + tail.0));
                }
                after = next_end;
            },
        }
    }
    let end = scan_run(chars, after, CharClass::Space);
    proof {
        lemma_run_end(chars@, at as int, CharClass::Digit);
    }
    Some((Subdivisions::new(number, suffixes), end))
}

/// Reads a range at `at`.
fn housenumber_range(input: &str, chars: &Vec<char>, at: usize) -> (r: Option<
    (HouseNumber, usize),
>)
    requires
        chars@ == input@,
        at <= chars.len(),
    ensures
        r is Some <==> range_at(chars@, at as int) is Some,
        r matches Some((entry, end)) ==> at < end <= chars.len() && (range_at(chars@, at as int)
            matches Some(((low, high), stop)) && entry@ == Entry::Range(low, high) && stop == end),
{
    match single_housenumber(input, chars, at) {
        None => None,
        Some((low, dash)) => match range_dash(chars, dash) {
            None => None,
            Some(second) => match single_housenumber(input, chars, second) {
                None => None,
                Some((high, end)) => Some((HouseNumber::Range(low, high), end)),
            },
        },
    }
}

/// Reads an entry at `at`: a range, else a subdivided number, else a single
/// number.
fn house_number(input: &str, chars: &Vec<char>, at: usize) -> (r: Option<(HouseNumber, usize)>)
    requires
        chars@ == input@,
        at <= chars.len(),
    ensures
        r is Some <==> entry_at(chars@, at as int) is Some,
        r matches Some((entry, end)) ==> entry_at(chars@, at as int) == Some((entry@, end as int))
            && at < end <= chars.len(),
{
    proof {
        lemma_entry_at(chars@, at as int);
    }
    match housenumber_range(input, chars, at) {
        Some(found) => Some(found),
        None => match subdivided_housenumber(input, chars, at) {
            Some((subdivisions, end)) => Some((HouseNumber::Subdivided(subdivisions), end)),
            None => match single_housenumber(input, chars, at) {
                Some((single, end)) => Some((HouseNumber::Single(single), end)),
                None => None,
            },
        },
    }
}

/// Reads the list of entries with which the text begins.
fn housenumber_list(input: &str, chars: &Vec<char>) -> (r: Option<(Vec<HouseNumber>, usize)>)
    requires
        chars@ == input@,
    ensures
        r is Some <==> entries_of(chars@) is Some,
        r matches Some((entries, end)) ==> entries_of(chars@) == Some(
            (entries.deep_view(), end as int),
        ) && end <= chars.len(),
{
    let (first, first_end) = match house_number(input, chars, 0) {
        None => {
            return None;
        },
        Some(found) => found,
    };
    let ghost head = first@;
    let ghost all = more_entries(chars@, first_end as int);
    let mut entries: Vec<HouseNumber> = Vec::new();
    entries.push(first);
    assert(entries.deep_view() =~= seq![head]);
    let mut after: usize = first_end;
    loop
        invariant
            chars@ == input@,
            after <= chars.len(),
            entries.deep_view() + more_entries(chars@, after as int).0 == seq![head] + all.0,
            more_entries(chars@, after as int).1 == all.1,
        ensures
            after <= chars.len(),
            entries.deep_view() == seq![head] + all.0,
            after == all.1,
        decreases chars.len() - after,
    {
        let ghost so_far = entries.deep_view();
        let ghost rest = more_entries(chars@, after as int);
        match list_delimiter(chars, after) {
            None => {
                assert(so_far + rest.0 =~= so_far);
                break ;
            },
            Some(next) => match house_number(input, chars, next) {
                None => {
                    assert(so_far + rest.0 =~= so_far);
                    break ;
                },
                Some((entry, end)) => {
                    let ghost found = entry@;
                    entries.push(entry);
                    proof {
                        let tail = more_entries(chars@, end as int);
                        assert(entries.deep_view() =~= so_far.push(found));
                        assert(rest.0 == seq![found] + tail.0);
                        assert(so_far.push(found) + tail.0 =~= so_far + (seq![found] + tail.0));
                    }
                    after = end;
                },
            },
        }
    }
    Some((entries, after))
}

impl HouseNumberList {
    /// The set of the atomic house numbers that `entries` stand for.
    pub fn from_entries(entries: &Vec<HouseNumber>) -> (r: Self)
        ensures
            r@ == singles_of_all(entries.deep_view()),
    {
        let mut list = HouseNumberList::new();
        let mut i: usize = 0;
        while i < entries.len()
            invariant
                i <= entries.len(),
                list@ == singles_of_all(entries.deep_view().take(i as int)),
            decreases entries.len() - i,
        {
            let singles = entries[i].singles();
            let ghost before = list@;
            let mut j: usize = 0;
            while j < singles.len()
                invariant
                    j <= singles.len(),
                    list@ == before.union(singles.deep_view().take(j as int).to_set()),
                decreases singles.len() - j,
            {
                let ghost done = singles.deep_view().take(j as int);
                list.insert(singles[j].clone());
                proof {
                    let next = singles.deep_view().take(j + 1);
                    assert(next =~= done.push(singles@[j as int]@));
                    done.lemma_push_to_set_commute(singles@[j as int]@);
                    assert(before.union(done.to_set()).insert(singles@[j as int]@)
                        =~= before.union(next.to_set()));
                }
                j += 1;
            }
            proof {
                assert(singles.deep_view().take(j as int) =~= singles.deep_view());
                let grown = entries.deep_view().take(i + 1);
                assert(grown.drop_last() =~= entries.deep_view().take(i as int));
                assert(grown.last() == entries@[i as int]@);
            }
            i += 1;
        }
        assert(entries.deep_view().take(i as int) =~= entries.deep_view());
        list
    }

    /// Reads a house-number text.
    ///
    /// The text is a list of entries separated by `/`, `,` or `;`; an entry is a
    /// range, a subdivided number or a single number. The result is the set of
    /// the atomic house numbers of all entries. A text that does not begin
    /// with a house number, or that goes on after its last entry, is refused.
    pub fn parse<'a>(input: &'a str) -> (r: Result<HouseNumberList, ParseError<'a>>)
        ensures
            match r {
                Ok(list) => meaning_of(input@) == Ok::<Set<Single>, Malformed>(list@),
                Err(ParseError::NoHouseNumberError(text)) => text@ == input@ && meaning_of(input@)
                    == Err::<Set<Single>, Malformed>(Malformed::NoHouseNumber),
                Err(ParseError::NotFullyConsumedError(text, rest)) => text@ == input@ && (
                meaning_of(input@) matches Err(Malformed::NotFullyConsumed { rest: at }) && 0 <= at
                    < input@.len() && rest@ == input@.subrange(at, input@.len() as int)),
            },
    {
        let chars = chars_of(input);
        match housenumber_list(input, &chars) {
            None => Err(ParseError::NoHouseNumberError(input)),
            Some((entries, end)) => {
                if end < chars.len() {
                    let rest = input.substring_char(end, chars.len());
                    Err(ParseError::NotFullyConsumedError(input, rest))
                } else {
                    Ok(HouseNumberList::from_entries(&entries))
                }
            },
        }
    }
}

impl<'a> TryFrom<&'a str> for HouseNumberList {
    type Error = ParseError<'a>;

    /// Reads a house-number text, as [`HouseNumberList::parse`] does.
    fn try_from(input: &'a str) -> (r: Result<Self, ParseError<'a>>)
        ensures
            match r {
                Ok(list) => meaning_of(input@) == Ok::<Set<Single>, Malformed>(list@),
                Err(ParseError::NoHouseNumberError(text)) => text@ == input@ && meaning_of(input@)
                    == Err::<Set<Single>, Malformed>(Malformed::NoHouseNumber),
                Err(ParseError::NotFullyConsumedError(text, rest)) => text@ == input@ && (
                meaning_of(input@) matches Err(Malformed::NotFullyConsumed { rest: at }) && 0 <= at
                    < input@.len() && rest@ == input@.subrange(at, input@.len() as int)),
            },
    {
        HouseNumberList::parse(input)
    }
}

impl<'a> vstd::std_specs::convert::TryFromSpecImpl<&'a str> for HouseNumberList {
    /// The set that is read is given by its view, not as a value.
    open spec fn obeys_try_from_spec() -> bool {
        false
    }

    open spec fn try_from_spec(input: &'a str) -> Result<Self, ParseError<'a>> {
        Err(ParseError::NoHouseNumberError(input))
    }
}

/// Merging a set of house numbers with itself changes nothing.
pub proof fn merge_is_idempotent(numbers: Set<Single>)
    ensures
        numbers.union(numbers) == numbers,
{
    assert(numbers.union(numbers) =~= numbers);
}

/// Merging two sets of house numbers gives the same set in either order.
pub proof fn merge_is_commutative(a: Set<Single>, b: Set<Single>)
    ensures
        a.union(b) == b.union(a),
{
    assert(a.union(b) =~= b.union(a));
}

} // verus!
