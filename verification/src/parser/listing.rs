//! House numbers as text: single numbers, entries, and the sorted listing of
//! a set of house numbers.

use crate::parser::grammar::{Entry, Single};
use crate::parser::housenumber::{HouseNumber, HouseNumberList, SingleHouseNumber, Subdivisions};
use crate::text::{decimal_string, decimal_text, join_of, lemma_text_order_is_total, text_order};
use itertools::Itertools;
use vstd::prelude::*;
use vstd::relations::sorted_by;
use vstd::seq_lib::lemma_sorted_unique;
use vstd::string::StringExecFns;

verus! {

/// `itertools`' `Itertools::sorted` on texts: the same texts, each as often as
/// it was given, in ascending order. Texts are ordered as `String`s are: by
/// the first character in which they differ, a text before those it begins.
#[verifier::external_body]
fn ascending(texts: Vec<String>) -> (r: Vec<String>)
    ensures
        r.deep_view().to_multiset() == texts.deep_view().to_multiset(),
        sorted_by(r.deep_view(), text_order()),
{
    texts.into_iter().sorted().collect()
}

/// `itertools`' `Itertools::join` on texts: the texts one after another, with
/// `separator` between each two; the empty text where there are none.
#[verifier::external_body]
fn joined(texts: &Vec<String>, separator: &str) -> (r: String)
    ensures
        r@ == join_of(texts.deep_view(), separator@),
{
    texts.iter().join(separator)
}

/// An atomic house number as text: the number, then the suffix.
pub open spec fn single_text(single: Single) -> Seq<char> {
    decimal_text(single.0 as nat) + single.1
}

/// An entry as text: a single number as it is; a subdivided number as the
/// number, a space and the suffixes with `/` between them; a range as its
/// bounds with `-` between them.
pub open spec fn entry_text(entry: Entry) -> Seq<char> {
    match entry {
        Entry::Single(single) => single_text(single),
        Entry::Subdivided(number, suffixes) => decimal_text(number as nat) + seq![' '] + join_of(
            suffixes,
            seq!['/'],
        ),
        Entry::Range(low, high) => single_text(low) + seq!['-'] + single_text(high),
    }
}

/// The house numbers of `numbers` that are written `text`.
pub open spec fn written_as(numbers: Set<Single>, text: Seq<char>) -> Set<Single> {
    numbers.filter(|single: Single| single_text(single) == text)
}

/// Whether `texts` list the house numbers of `numbers`: they are the texts of
/// the house numbers, one for each, in ascending order.
pub open spec fn is_listing(texts: Seq<Seq<char>>, numbers: Set<Single>) -> bool {
    &&& sorted_by(texts, text_order())
    &&& forall|text: Seq<char>|
        texts.to_multiset().count(text) == #[trigger] written_as(numbers, text).len()
}

/// The texts of the house numbers of `numbers`, in ascending order.
pub open spec fn listing_of(numbers: Set<Single>) -> Seq<Seq<char>> {
    choose|texts: Seq<Seq<char>>| is_listing(texts, numbers)
}

/// A set of house numbers as text: the texts of its house numbers in
/// ascending order, with `/` between them.
pub open spec fn display_of(numbers: Set<Single>) -> Seq<char> {
    join_of(listing_of(numbers), seq!['/'])
}

/// A set of house numbers has one listing only.
pub proof fn listing_is_unique(numbers: Set<Single>, a: Seq<Seq<char>>, b: Seq<Seq<char>>)
    requires
        is_listing(a, numbers),
        is_listing(b, numbers),
    ensures
        a == b,
{
    assert forall|text: Seq<char>| a.to_multiset().count(text) == b.to_multiset().count(text) by {
        assert(a.to_multiset().count(text) == written_as(numbers, text).len());
        assert(b.to_multiset().count(text) == written_as(numbers, text).len());
    }
    assert(a.to_multiset() =~= b.to_multiset());
    lemma_text_order_is_total();
    lemma_sorted_unique(a, b, text_order());
}

/// The texts of distinct house numbers hold each text as often as there are
/// house numbers written so.
proof fn lemma_texts_counted(singles: Seq<Single>, text: Seq<char>)
    requires
        singles.no_duplicates(),
    ensures
        singles.map_values(|single: Single| single_text(single)).to_multiset().count(text)
            == written_as(singles.to_set(), text).len(),
    decreases singles.len(),
{
    broadcast use vstd::multiset::group_multiset_axioms;
    broadcast use vstd::seq_lib::group_to_multiset_ensures;

    let write = |single: Single| single_text(single);
    if singles.len() == 0 {
        assert(singles.map_values(write) =~= Seq::<Seq<char>>::empty());
        assert(written_as(singles.to_set(), text) =~= Set::<Single>::empty());
    } else {
        let before = singles.drop_last();
        let last = singles.last();
        lemma_texts_counted(before, text);
        assert(singles.map_values(write) =~= before.map_values(write).push(write(last)));
        assert(singles =~= before.push(last));
        before.lemma_push_to_set_commute(last);
        vstd::seq_lib::seq_to_set_is_finite(before);
        before.to_set().lemma_len_filter(|single: Single| single_text(single) == text);
        assert(!before.to_set().contains(last)) by {
            if before.to_set().contains(last) {
                let i = choose|i: int| 0 <= i < before.len() && before[i] == last;
                assert(singles[i] == singles[singles.len() - 1]);
            }
        }
        if single_text(last) == text {
            assert(written_as(singles.to_set(), text) =~= written_as(before.to_set(), text).insert(
                last,
            ));
        } else {
            assert(written_as(singles.to_set(), text) =~= written_as(before.to_set(), text));
        }
    }
}

impl SingleHouseNumber {
    /// The house number as text: the number, then the suffix.
    pub fn to_string(&self) -> (r: String)
        ensures
            r@ == single_text(self@),
    {
        let mut text = decimal_string(self.number() as u64);
        text.append(self.suffix());
        text
    }
}

impl Subdivisions {
    /// The subdivided number as text: the number, a space, and the suffixes
    /// with `/` between them.
    pub fn to_string(&self) -> (r: String)
        ensures
            r@ == entry_text(Entry::Subdivided(self@.0, self@.1)),
    {
        proof {
            reveal_strlit(" ");
            reveal_strlit("/");
            assert(" "@ =~= seq![' ']);
            assert("/"@ =~= seq!['/']);
        }
        let mut text = decimal_string(self.number() as u64);
        text.append(" ");
        let suffixes = joined(self.suffixes(), "/");
        text.append(suffixes.as_str());
        assert(text@ =~= entry_text(Entry::Subdivided(self@.0, self@.1)));
        text
    }
}

impl HouseNumber {
    /// The entry as text, as it is written in a house-number text.
    pub fn to_string(&self) -> (r: String)
        ensures
            r@ == entry_text(self@),
    {
        match self {
            HouseNumber::Single(single) => single.to_string(),
            HouseNumber::Subdivided(subdivisions) => subdivisions.to_string(),
            HouseNumber::Range(low, high) => {
                proof {
                    reveal_strlit("-");
                    assert("-"@ =~= seq!['-']);
                }
                let mut text = low.to_string();
                text.append("-");
                let bound = high.to_string();
                text.append(bound.as_str());
                assert(text@ =~= entry_text(self@));
                text
            },
        }
    }
}

impl HouseNumberList {
    /// The set as text: the texts of its house numbers in ascending order,
    /// with `/` between them.
    pub fn to_string(&self) -> (r: String)
        ensures
            r@ == display_of(self@),
    {
        let singles = self.to_vec();
        let ghost write = |single: Single| single_text(single);
        let mut texts: Vec<String> = Vec::new();
        let mut i: usize = 0;
        while i < singles.len()
            invariant
                i <= singles.len(),
                write == |single: Single| single_text(single),
                texts.deep_view() == singles.deep_view().take(i as int).map_values(write),
            decreases singles.len() - i,
        {
            let ghost so_far = texts.deep_view();
            texts.push(singles[i].to_string());
            proof {
                assert(texts.deep_view() =~= so_far.push(single_text(singles@[i as int]@)));
                assert(singles.deep_view().take(i + 1).map_values(write) =~= so_far.push(
                    single_text(singles@[i as int]@),
                ));
            }
            i += 1;
        }
        assert(singles.deep_view().take(i as int) =~= singles.deep_view());
        let sorted = ascending(texts);
        proof {
            reveal_strlit("/");
            assert("/"@ =~= seq!['/']);
            assert forall|text: Seq<char>|
                sorted.deep_view().to_multiset().count(text) == #[trigger] written_as(
                    self@,
                    text,
                ).len() by {
                lemma_texts_counted(singles.deep_view(), text);
            }
            assert(is_listing(sorted.deep_view(), self@));
            listing_is_unique(self@, sorted.deep_view(), listing_of(self@));
        }
        joined(&sorted, "/")
    }
}

} // verus!
