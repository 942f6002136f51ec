//! The number of flats of a building, estimated from its tags and from the
//! house numbers found inside it.
//!
//! 1. A building with an excluded key, or with an excluded `landuse` value,
//!    holds no flat.
//! 2. Otherwise a `building:flats` tag that is a count gives the flats as they
//!    stand.
//! 3. Otherwise the flats are estimated. The building type gives a base: one
//!    flat for a single home; for an apartment building the house numbers
//!    times a factor; for an unspecified type the house numbers; in both cases
//!    a fallback where no house number was found; for the type `yes` the
//!    house numbers; nothing for any other type or none. A `building:levels`
//!    tag above the level threshold then adds the levels beyond the fourth
//!    times a factor to the base, whatever the type is, and the sum is never
//!    below zero.
//!
//! The fallback and the level threshold are settings; both are four unless a
//! run sets them otherwise.

use crate::config::{Config, Settings};
use crate::error::{Diagnostic, Error, Problem};
use crate::pbf::way::GenericWay;
use crate::tags::{TagMap, Tags};
use crate::text::{
    chars_of, decimal_value, decimal_within, lemma_run_end, run_end, scan_run, CharClass,
};
use vstd::prelude::*;

verus! {

/// The count that `text` writes: digits, with a plus sign before them or
/// without. There is none where `text` is anything else.
pub open spec fn count_of(text: Seq<char>) -> Option<int> {
    let start = if text.len() > 0 && text[0] == '+' {
        1int
    } else {
        0int
    };
    if start < text.len() && run_end(text, start, CharClass::Digit) == text.len() {
        Some(decimal_value(text.subrange(start, text.len() as int)) as int)
    } else {
        None
    }
}

/// The number of whole levels that `text` writes: the largest integer not
/// above the number written in decimal notation, which is an optional sign,
/// digits, and optionally a point and more digits, with a digit on at least one
/// side of the point. There is none where `text` is anything else.
pub open spec fn levels_of(text: Seq<char>) -> Option<int> {
    let start = if text.len() > 0 && (text[0] == '+' || text[0] == '-') {
        1int
    } else {
        0int
    };
    let whole_end = run_end(text, start, CharClass::Digit);
    let fraction = if 0 <= whole_end < text.len() && text[whole_end] == '.' {
        whole_end + 1
    } else {
        whole_end
    };
    let fraction_end = run_end(text, fraction, CharClass::Digit);
    if fraction_end == text.len() && (start < whole_end || fraction < fraction_end) {
        let whole = decimal_value(text.subrange(start, whole_end)) as int;
        if text[0] == '-' {
            if decimal_value(text.subrange(fraction, fraction_end)) > 0 {
                Some(-whole - 1)
            } else {
                Some(-whole)
            }
        } else {
            Some(whole)
        }
    } else {
        None
    }
}

/// Whether one of `keys` is a key of `tags`.
pub open spec fn any_key_present(tags: TagMap, keys: Seq<Seq<char>>) -> bool {
    exists|i: int| 0 <= i < keys.len() && tags.dom().contains(#[trigger] keys[i])
}

/// Whether the tags mark a building as not residential: one of the excluded
/// keys is present, or `landuse` has an excluded value.
pub open spec fn is_excluded(tags: TagMap, settings: Settings) -> bool {
    any_key_present(tags, settings.exclude_tags) || (tags.dom().contains("landuse"@)
        && settings.exclude_landuse.contains(tags["landuse"@]))
}

/// The flat count that the tags declare, where `building:flats` is a count.
pub open spec fn declared_flats(tags: TagMap) -> Option<int> {
    if tags.dom().contains("building:flats"@) {
        count_of(tags["building:flats"@])
    } else {
        None
    }
}

/// The flats that the building type stands for, given the number of house
/// numbers found inside the building.
pub open spec fn base_flats(tags: TagMap, house_numbers: nat, settings: Settings) -> int {
    if !tags.dom().contains("building"@) {
        0
    } else {
        let kind = tags["building"@];
        if settings.single_home_list.contains(kind) {
            1
        } else if settings.apartment_list.contains(kind) {
            if house_numbers >= 1 {
                house_numbers * settings.housenumber_factor
            } else {
                settings.fallback_flats as int
            }
        } else if settings.unspecified_list.contains(kind) {
            if house_numbers >= 1 {
                house_numbers as int
            } else {
                settings.fallback_flats as int
            }
        } else if kind == "yes"@ && house_numbers >= 1 {
            house_numbers as int
        } else {
            0
        }
    }
}

/// The number of whole levels that the tags give, where `building:levels` is
/// a number.
pub open spec fn level_count(tags: TagMap) -> Option<int> {
    if tags.dom().contains("building:levels"@) {
        levels_of(tags["building:levels"@])
    } else {
        None
    }
}

/// What the levels add to the base: the levels beyond the fourth times the
/// level factor, where `building:levels` is a number above the threshold, and
/// nothing otherwise. Below four levels it is negative.
pub open spec fn level_adjustment(tags: TagMap, settings: Settings) -> int {
    match level_count(tags) {
        Some(levels) => if levels > settings.level_threshold {
            (levels - 4) * settings.level_factor
        } else {
            0
        },
        None => 0,
    }
}

/// The number of flats of a building with the given tags and house numbers.
pub open spec fn flat_count(tags: TagMap, house_numbers: nat, settings: Settings) -> int {
    if is_excluded(tags, settings) {
        0
    } else if declared_flats(tags) is Some {
        declared_flats(tags)->0
    } else {
        let estimate = base_flats(tags, house_numbers, settings) + level_adjustment(
            tags,
            settings,
        );
        if estimate < 0 {
            0
        } else {
            estimate
        }
    }
}

/// What the levels tag gives to report: its value, where it is not a number.
pub open spec fn levels_problems(tags: TagMap) -> Seq<Problem> {
    if tags.dom().contains("building:levels"@) && level_count(tags) is None {
        seq![Problem::NonNumericLevels(tags["building:levels"@])]
    } else {
        Seq::empty()
    }
}

/// What the estimate of a building's flats gives to report: the value of
/// `building:flats` where it is not a count, and that of `building:levels`
/// where it is not a number; nothing for an excluded building, and nothing
/// of the levels where the flats are declared.
pub open spec fn flat_count_problems(tags: TagMap, settings: Settings) -> Seq<Problem> {
    if is_excluded(tags, settings) {
        Seq::empty()
    } else if tags.dom().contains("building:flats"@) {
        if declared_flats(tags) is Some {
            Seq::empty()
        } else {
            seq![Problem::NonNumericFlats(tags["building:flats"@])] + levels_problems(tags)
        }
    } else {
        levels_problems(tags)
    }
}

/// The flat count is never negative, whatever the tags and settings are.
pub proof fn flat_count_is_never_negative(tags: TagMap, house_numbers: nat, settings: Settings)
    ensures
        flat_count(tags, house_numbers, settings) >= 0,
{
}

/// An excluded building holds no flat.
pub proof fn excluded_building_has_no_flats(tags: TagMap, house_numbers: nat, settings: Settings)
    requires
        is_excluded(tags, settings),
    ensures
        flat_count(tags, house_numbers, settings) == 0,
{
}

/// Numbers up to this one are read as they stand.
pub const NUMERAL_LIMIT: u128 = 0x1_0000_0000_0000_0000_0000;

/// What was read from a text that should write a number.
#[derive(Clone, Copy, Debug, PartialEq, Eq, Structural)]
pub enum Numeral {
    /// The text does not write a number.
    Invalid,
    /// The number written, or zero where that is negative.
    Value(u128),
    /// The text writes a number above [`NUMERAL_LIMIT`].
    Beyond,
}

/// Whether `numeral` is what is read of a text that writes `written`.
pub open spec fn reads(numeral: Numeral, written: Option<int>) -> bool {
    match numeral {
        Numeral::Invalid => written is None,
        Numeral::Value(value) => written matches Some(number) && number <= NUMERAL_LIMIT && value
            == if number < 0 {
            0
        } else {
            number
        },
        Numeral::Beyond => written matches Some(number) && number > NUMERAL_LIMIT,
    }
}

/// Reads the digits `chars[from..to]`.
fn read_digits(chars: &Vec<char>, from: usize, to: usize) -> (r: Numeral)
    requires
        from <= to <= chars.len(),
        to == run_end(chars@, from as int, CharClass::Digit),
    ensures
        reads(r, Some(decimal_value(chars@.subrange(from as int, to as int)) as int)),
        r !is Invalid,
{
    proof {
        lemma_run_end(chars@, from as int, CharClass::Digit);
    }
    match decimal_within(chars, from, to, NUMERAL_LIMIT) {
        Some(value) => Numeral::Value(value),
        None => Numeral::Beyond,
    }
}

/// Reads a count, as [`count_of`] defines it.
pub fn read_count(text: &str) -> (r: Numeral)
    ensures
        reads(r, count_of(text@)),
{
    let chars = chars_of(text);
    let start: usize = if chars.len() > 0 && chars[0] == '+' {
        1
    } else {
        0
    };
    if start >= chars.len() {
        return Numeral::Invalid;
    }
    let end = scan_run(&chars, start, CharClass::Digit);
    if end != chars.len() {
        return Numeral::Invalid;
    }
    read_digits(&chars, start, end)
}

/// Reads a number of levels, as [`levels_of`] defines it.
pub fn read_levels(text: &str) -> (r: Numeral)
    ensures
        reads(r, levels_of(text@)),
{
    let chars = chars_of(text);
    let start: usize = if chars.len() > 0 && (chars[0] == '+' || chars[0] == '-') {
        1
    } else {
        0
    };
    let whole_end = scan_run(&chars, start, CharClass::Digit);
    let fraction: usize = if whole_end < chars.len() && chars[whole_end] == '.' {
        whole_end + 1
    } else {
        whole_end
    };
    let fraction_end = scan_run(&chars, fraction, CharClass::Digit);
    if fraction_end != chars.len() || !(start < whole_end || fraction < fraction_end) {
        return Numeral::Invalid;
    }
    if chars[0] == '-' {
        Numeral::Value(0)
    } else {
        read_digits(&chars, start, whole_end)
    }
}

/// Whether `text` is one of `list`.
pub fn is_listed(list: &Vec<String>, text: &str) -> (r: bool)
    ensures
        r == list.deep_view().contains(text@),
{
    let wanted: String = text.to_owned();
    let mut i: usize = 0;
    while i < list.len()
        invariant
            i <= list.len(),
            wanted@ == text@,
            forall|j: int| 0 <= j < i ==> (#[trigger] list@[j])@ != text@,
        decreases list.len() - i,
    {
        if list[i] == wanted {
            assert(list.deep_view()[i as int] == text@);
            return true;
        }
        i += 1;
    }
    assert forall|j: int| 0 <= j < list.deep_view().len() implies list.deep_view()[j]
        != text@ by {
        assert(list@[j]@ != text@);
    }
    false
}

/// Whether one of `keys` is a key of `tags`.
pub fn has_any_key(tags: &Tags, keys: &Vec<String>) -> (r: bool)
    ensures
        r == any_key_present(tags@, keys.deep_view()),
{
    let mut i: usize = 0;
    while i < keys.len()
        invariant
            i <= keys.len(),
            forall|j: int| 0 <= j < i ==> !tags@.dom().contains(#[trigger] keys.deep_view()[j]),
        decreases keys.len() - i,
    {
        if tags.contains_key(keys[i].as_str()) {
            assert(tags@.dom().contains(keys.deep_view()[i as int]));
            return true;
        }
        assert(keys.deep_view()[i as int] == keys@[i as int]@);
        i += 1;
    }
    false
}

/// Whether the tags mark a building as not residential.
pub fn marks_exclusion(tags: &Tags, config: &Config) -> (r: bool)
    ensures
        r == is_excluded(tags@, config@),
{
    if has_any_key(tags, config.exclude_tags()) {
        return true;
    }
    match tags.get("landuse") {
        Some(value) => is_listed(config.exclude_landuse(), value),
        None => false,
    }
}

/// The product of two machine counts, which fits in 128 bits.
fn product(a: usize, b: usize) -> (r: u128)
    ensures
        r == a * b,
{
    assert(a * b <= 0xffff_ffff_ffff_fffe_0000_0000_0000_0001) by (nonlinear_arith)
        requires
            0 <= a <= 0xffff_ffff_ffff_ffff,
            0 <= b <= 0xffff_ffff_ffff_ffff,
    ;
    (a as u128) * (b as u128)
}

/// The flats that the building type stands for.
pub fn base_flat_count(tags: &Tags, house_numbers: usize, config: &Config) -> (r: u128)
    ensures
        r == base_flats(tags@, house_numbers as nat, config@),
{
    match tags.get("building") {
        None => 0,
        Some(kind) => {
            if is_listed(config.single_home_list(), kind) {
                1
            } else if is_listed(config.apartment_list(), kind) {
                if house_numbers >= 1 {
                    product(house_numbers, config.housenumber_factor())
                } else {
                    config.fallback_flats() as u128
                }
            } else if is_listed(config.unspecified_list(), kind) {
                if house_numbers >= 1 {
                    house_numbers as u128
                } else {
                    config.fallback_flats() as u128
                }
            } else if house_numbers >= 1 && kind.to_owned() == "yes".to_owned() {
                house_numbers as u128
            } else {
                0
            }
        },
    }
}

/// What a building of `levels` levels counts: the base with the level
/// adjustment, never below zero.
pub open spec fn adjusted(base: int, levels: int, settings: Settings) -> int {
    let adjustment = if levels > settings.level_threshold {
        (levels - 4) * settings.level_factor
    } else {
        0
    };
    if base + adjustment < 0 {
        0
    } else {
        base + adjustment
    }
}

/// The estimate for a building that is not excluded and declares no flat
/// count, from its base and the levels that were read.
fn adjusted_flat_count(base: u128, levels: Numeral, written: Ghost<int>, config: &Config) -> (r:
    Result<usize, Error>)
    requires
        reads(levels, Some(written@)),
    ensures
        match r {
            Ok(flats) => flats == adjusted(base as int, written@, config@),
            Err(error) => error == Error::Overflow && adjusted(base as int, written@, config@)
                > usize::MAX,
        },
{
    let factor = config.level_factor();
    let estimate: u128 = match levels {
        Numeral::Value(count) => {
            if count > config.level_threshold() as u128 {
                if count >= 4 {
                    let above: u128 = count - 4;
                    if factor == 0 {
                        assert((count - 4) * factor == 0) by (nonlinear_arith)
                            requires
                                factor == 0,
                        ;
                        base
                    } else if above > usize::MAX as u128 || base > usize::MAX as u128 {
                        assert((count - 4) * factor >= count - 4) by (nonlinear_arith)
                            requires
                                factor >= 1,
                                count >= 4,
                        ;
                        return Err(Error::Overflow);
                    } else {
                        let added = product(above as usize, factor);
                        if added > usize::MAX as u128 {
                            return Err(Error::Overflow);
                        }
                        base + added
                    }
                } else {
                    let below: u128 = 4 - count;
                    assert((count - 4) * factor == -((4 - count) * factor)) by (nonlinear_arith);
                    assert((4 - count) * factor <= 4 * factor) by (nonlinear_arith)
                        requires
                            0 <= count < 4,
                            0 <= factor,
                    ;
                    let removed: u128 = below * (factor as u128);
                    if removed >= base {
                        0
                    } else {
                        base - removed
                    }
                }
            } else {
                base
            }
        },
        _ => {
            if factor > 0 {
                assert((written@ - 4) * factor >= written@ - 4) by (nonlinear_arith)
                    requires
                        factor >= 1,
                        written@ >= 4,
                ;
                return Err(Error::Overflow);
            }
            assert((written@ - 4) * factor == 0) by (nonlinear_arith)
                requires
                    factor == 0,
            ;
            base
        },
    };
    if estimate > usize::MAX as u128 {
        Err(Error::Overflow)
    } else {
        Ok(estimate as usize)
    }
}

impl GenericWay {
    /// Estimates the number of flats of the building from its tags and from
    /// the number of house numbers found inside it.
    ///
    /// A `building:flats` value that is not a count and a `building:levels`
    /// value that is not a number are added to `diagnostics`, and the estimate
    /// is made without them. The estimate fails where the number of flats does
    /// not fit in the machine's integers.
    pub fn calculate_flat_count(
        &self,
        house_numbers: usize,
        config: &Config,
        diagnostics: &mut Vec<Diagnostic>,
    ) -> (r: Result<usize, Error>)
        ensures
            final(diagnostics).deep_view() == old(diagnostics).deep_view() + flat_count_problems(
                self.tags@,
                config@,
            ),
            match r {
                Ok(flats) => flats == flat_count(self.tags@, house_numbers as nat, config@),
                Err(error) => error == Error::Overflow && flat_count(
                    self.tags@,
                    house_numbers as nat,
                    config@,
                ) > usize::MAX,
            },
    {
        let ghost reported = diagnostics.deep_view();
        if marks_exclusion(&self.tags, config) {
            assert(reported + Seq::<Problem>::empty() =~= reported);
            return Ok(0);
        }
        match self.tags.get("building:flats") {
            Some(text) => match read_count(text) {
                Numeral::Value(count) => {
                    assert(reported + Seq::<Problem>::empty() =~= reported);
                    if count > usize::MAX as u128 {
                        return Err(Error::Overflow);
                    }
                    return Ok(count as usize);
                },
                Numeral::Beyond => {
                    assert(reported + Seq::<Problem>::empty() =~= reported);
                    return Err(Error::Overflow);
                },
                Numeral::Invalid => {
                    diagnostics.push(Diagnostic::NonNumericFlats(text.to_owned()));
                    assert(diagnostics.deep_view() =~= reported + seq![
                        Problem::NonNumericFlats(text@),
                    ]);
                },
            },
            None => {
                assert(reported + Seq::<Problem>::empty() =~= reported);
            },
        }
        let ghost noted = diagnostics.deep_view();
        let base = base_flat_count(&self.tags, house_numbers, config);
        let ghost written: int = match level_count(self.tags@) {
            Some(count) => count,
            None => 0,
        };
        let levels = match self.tags.get("building:levels") {
            None => Numeral::Value(0),
            Some(text) => match read_levels(text) {
                Numeral::Invalid => {
                    diagnostics.push(Diagnostic::NonNumericLevels(text.to_owned()));
                    assert(diagnostics.deep_view() =~= noted + seq![
                        Problem::NonNumericLevels(text@),
                    ]);
                    Numeral::Value(0)
                },
                read => read,
            },
        };
        proof {
            assert(diagnostics.deep_view() =~= reported + flat_count_problems(
                self.tags@,
                config@,
            ));
        }
        adjusted_flat_count(base, levels, Ghost(written), config)
    }
}

} // verus!
