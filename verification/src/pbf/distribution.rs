//! Spreads inhabitants over the flats of all buildings.
//!
//! The flats of all buildings are numbered in the order of the buildings, so
//! that each building owns a run of flat numbers. With a target, one flat is
//! drawn for each inhabitant; a flat that is already fuller than the reroll
//! threshold may be refused and drawn again. Without a target, each flat gets
//! a household whose size is drawn from a fixed distribution.
//!
//! What a distribution does with the values it draws is stated as a function
//! of those values; which values are drawn is left to the source.

use crate::config::{Config, Settings};
use crate::error::Error;
use crate::pbf::buildings::{
    lemma_total_flats_grows, same_but_population, total_flats, total_population, Buildings,
    Estate,
};
use crate::random::{drawn_between, drawn_on, RandomSource};
use vstd::prelude::*;

verus! {

/// The sum of `values[from..to]`.
pub open spec fn range_sum(values: Seq<u64>, from: int, to: int) -> nat
    decreases to - from,
{
    if to <= from {
        0
    } else {
        range_sum(values, from, to - 1) + values[to - 1] as nat
    }
}

/// The sum of all `values`.
pub open spec fn sum(values: Seq<u64>) -> nat {
    range_sum(values, 0, values.len() as int)
}

/// A range is worth its two parts together.
pub proof fn lemma_range_sum_split(values: Seq<u64>, from: int, middle: int, to: int)
    requires
        from <= middle <= to,
    ensures
        range_sum(values, from, to) == range_sum(values, from, middle) + range_sum(
            values,
            middle,
            to,
        ),
    decreases to - middle,
{
    if middle < to {
        lemma_range_sum_split(values, from, middle, to - 1);
    }
}

/// Changing one value changes the sums of the ranges that hold it by as much,
/// and no other.
pub proof fn lemma_range_sum_update(values: Seq<u64>, from: int, to: int, at: int, value: u64)
    requires
        0 <= from <= to <= values.len(),
        0 <= at < values.len(),
    ensures
        range_sum(values.update(at, value), from, to) == if from <= at < to {
            range_sum(values, from, to) - values[at] + value
        } else {
            range_sum(values, from, to) as int
        },
    decreases to - from,
{
    if from < to {
        lemma_range_sum_update(values, from, to - 1, at, value);
    }
}

/// No part is worth more than the whole, and no value more than the sum.
pub proof fn lemma_range_sum_bound(values: Seq<u64>, from: int, to: int)
    requires
        0 <= from <= to <= values.len(),
    ensures
        range_sum(values, from, to) <= sum(values),
        forall|i: int| from <= i < to ==> values[i] <= range_sum(values, from, to),
{
    lemma_range_sum_split(values, 0, from, to);
    lemma_range_sum_split(values, 0, to, values.len() as int);
    assert forall|i: int| from <= i < to implies values[i] <= range_sum(values, from, to) by {
        lemma_range_sum_split(values, from, i, to);
        lemma_range_sum_split(values, i, i + 1, to);
        assert(range_sum(values, i, i + 1) == range_sum(values, i, i) + values[i]);
    }
}

/// The number of the first flat of the building at `index`: the flats of the
/// buildings before it.
pub open spec fn first_flat(buildings: Seq<Estate>, index: int) -> nat {
    total_flats(buildings.take(index))
}

/// The inhabitants of the building at `index`: those of its own flats.
pub open spec fn population_of(buildings: Seq<Estate>, occupancy: Seq<u64>, index: int) -> nat {
    range_sum(
        occupancy,
        first_flat(buildings, index) as int,
        (first_flat(buildings, index) + buildings[index].flats) as int,
    )
}

/// Whether `after` are the buildings `before`, each with the inhabitants of
/// its own flats.
pub open spec fn settled(before: Seq<Estate>, after: Seq<Estate>, occupancy: Seq<u64>) -> bool {
    &&& same_but_population(before, after)
    &&& forall|i: int|
        0 <= i < before.len() ==> (#[trigger] after[i]).pop == population_of(before, occupancy, i)
}

/// Buildings that each hold the inhabitants of their own flats hold, up to any
/// place, the inhabitants of the flats before that place.
pub proof fn lemma_settled_prefix(
    before: Seq<Estate>,
    after: Seq<Estate>,
    occupancy: Seq<u64>,
    count: int,
)
    requires
        settled(before, after, occupancy),
        0 <= count <= before.len(),
    ensures
        total_population(after.take(count)) == range_sum(
            occupancy,
            0,
            first_flat(before, count) as int,
        ),
    decreases count,
{
    if count > 0 {
        lemma_settled_prefix(before, after, occupancy, count - 1);
        assert(after.take(count).drop_last() =~= after.take(count - 1));
        assert(before.take(count).drop_last() =~= before.take(count - 1));
        assert(after.take(count).last() == after[count - 1]);
        lemma_range_sum_split(
            occupancy,
            0,
            first_flat(before, count - 1) as int,
            first_flat(before, count) as int,
        );
    }
}

/// Every inhabitant lives in exactly one building: buildings that each hold
/// the inhabitants of their own flats hold, together, the inhabitants of all
/// flats.
pub proof fn populations_add_up(before: Seq<Estate>, after: Seq<Estate>, occupancy: Seq<u64>)
    requires
        settled(before, after, occupancy),
        occupancy.len() == total_flats(before),
    ensures
        total_population(after) == sum(occupancy),
{
    lemma_settled_prefix(before, after, occupancy, before.len() as int);
    assert(after.take(before.len() as int) =~= after);
    assert(before.take(before.len() as int) =~= before);
}

/// A building without flats has no inhabitants, whatever the flats of the
/// others hold.
pub proof fn no_flats_no_inhabitants(
    before: Seq<Estate>,
    after: Seq<Estate>,
    occupancy: Seq<u64>,
    index: int,
)
    requires
        settled(before, after, occupancy),
        0 <= index < before.len(),
        before[index].flats == 0,
    ensures
        after[index].pop == 0,
{
}

/// After this many refused picks in a row the next pick is kept as it is.
pub const REROLL_LIMIT: u64 = 0xffff_ffff_ffff_ffff;

/// Whether a second value is drawn for a picked flat that holds `occupancy`
/// inhabitants: the flat is fuller than the reroll threshold, and the interval
/// from which the second value comes is not empty.
pub open spec fn wants_second_draw(occupancy: u64, settings: Settings) -> bool {
    occupancy > settings.reroll_threshold && settings.reroll_probability > 0
}

/// Whether the second value `second` has the pick refused: it is above the
/// reroll threshold.
pub open spec fn refuses_pick(second: u64, settings: Settings) -> bool {
    second > settings.reroll_threshold
}

/// Executable form of [`wants_second_draw`].
pub fn needs_second_draw(occupancy: u64, config: &Config) -> (r: bool)
    ensures
        r == wants_second_draw(occupancy, config@),
{
    occupancy > config.reroll_threshold() && config.reroll_probability() > 0
}

/// Executable form of [`refuses_pick`].
pub fn is_refused(second: u64, config: &Config) -> (r: bool)
    ensures
        r == refuses_pick(second, config@),
{
    second > config.reroll_threshold()
}

/// How far a distribution has come.
pub struct Allotment {
    /// The inhabitants of each flat.
    pub occupancy: Seq<u64>,
    /// The inhabitants that have no flat yet.
    pub remaining: nat,
    /// The picks that were refused since the last one that was kept.
    pub refusals: nat,
    /// The flat that was picked and waits for its second value, if one does.
    pub awaiting: Option<int>,
}

/// A distribution before anything is drawn: `flats` empty flats and
/// `inhabitants` inhabitants without a flat.
pub open spec fn outset(flats: nat, inhabitants: nat) -> Allotment {
    Allotment {
        occupancy: Seq::new(flats, |i: int| 0u64),
        remaining: inhabitants,
        refusals: 0,
        awaiting: None,
    }
}

/// The distribution after one more inhabitant has moved into `flat`.
pub open spec fn moved_in(state: Allotment, flat: int) -> Allotment {
    Allotment {
        occupancy: state.occupancy.update(flat, (state.occupancy[flat] + 1) as u64),
        remaining: (state.remaining - 1) as nat,
        refusals: 0,
        awaiting: None,
    }
}

/// The distribution after the value `value` has been drawn.
///
/// While inhabitants remain, a value is the pick of a flat or the second
/// value for the flat picked before it. The picked flat gets the inhabitant
/// at once, unless it is fuller than the threshold, a second value can be
/// drawn and fewer than [`REROLL_LIMIT`] picks were refused in a row; then it
/// waits for the second value, which has the pick refused or the inhabitant
/// move in.
pub open spec fn after_draw(state: Allotment, value: u64, settings: Settings) -> Allotment {
    if state.remaining == 0 {
        state
    } else {
        match state.awaiting {
            None => if value >= state.occupancy.len() {
                state
            } else if state.refusals < REROLL_LIMIT && wants_second_draw(
                state.occupancy[value as int],
                settings,
            ) {
                Allotment { awaiting: Some(value as int), ..state }
            } else {
                moved_in(state, value as int)
            },
            Some(flat) => if refuses_pick(value, settings) {
                Allotment { awaiting: None, refusals: state.refusals + 1, ..state }
            } else {
                moved_in(state, flat)
            },
        }
    }
}

/// The distribution after the values `values` have been drawn, one after
/// another.
pub open spec fn after_draws(state: Allotment, values: Seq<u64>, settings: Settings) -> Allotment
    decreases values.len(),
{
    if values.len() == 0 {
        state
    } else {
        after_draw(after_draws(state, values.drop_last(), settings), values.last(), settings)
    }
}

/// Whether a distribution is one that drawing can lead to: a flat that waits
/// for its second value is one of the flats, and the inhabitants with and
/// without a flat can be counted in 64 bits.
pub open spec fn is_sound(state: Allotment) -> bool {
    &&& state.awaiting matches Some(flat) ==> 0 <= flat < state.occupancy.len()
    &&& sum(state.occupancy) + state.remaining <= u64::MAX
}

/// Drawing a value loses no inhabitant and makes none: those with a flat and
/// those without are as many after it as before.
pub proof fn draw_keeps_inhabitants(state: Allotment, value: u64, settings: Settings)
    requires
        is_sound(state),
    ensures
        is_sound(after_draw(state, value, settings)),
        sum(after_draw(state, value, settings).occupancy) + after_draw(
            state,
            value,
            settings,
        ).remaining == sum(state.occupancy) + state.remaining,
{
    let flat = match state.awaiting {
        Some(flat) => flat,
        None => value as int,
    };
    if state.remaining > 0 && 0 <= flat < state.occupancy.len() {
        lemma_range_sum_bound(state.occupancy, 0, state.occupancy.len() as int);
        lemma_range_sum_update(
            state.occupancy,
            0,
            state.occupancy.len() as int,
            flat,
            (state.occupancy[flat] + 1) as u64,
        );
        assert(sum(moved_in(state, flat).occupancy) == sum(state.occupancy) + 1);
    }
}

/// Every inhabitant is accounted for, whatever is drawn: those with a flat
/// and those without are as many after any draws as before them.
pub proof fn draws_keep_inhabitants(state: Allotment, values: Seq<u64>, settings: Settings)
    requires
        is_sound(state),
    ensures
        is_sound(after_draws(state, values, settings)),
        sum(after_draws(state, values, settings).occupancy) + after_draws(
            state,
            values,
            settings,
        ).remaining == sum(state.occupancy) + state.remaining,
    decreases values.len(),
{
    if values.len() > 0 {
        draws_keep_inhabitants(state, values.drop_last(), settings);
        draw_keeps_inhabitants(
            after_draws(state, values.drop_last(), settings),
            values.last(),
            settings,
        );
    }
}

/// Refusals end: after [`REROLL_LIMIT`] picks refused in a row, the flat that
/// is picked next gets the inhabitant, however full it is.
pub proof fn pick_is_kept_at_the_limit(state: Allotment, flat: u64, settings: Settings)
    requires
        state.remaining > 0,
        state.awaiting is None,
        state.refusals >= REROLL_LIMIT,
        flat < state.occupancy.len(),
    ensures
        after_draw(state, flat, settings) == moved_in(state, flat as int),
{
}

/// A flat that is no fuller than the threshold gets the inhabitant for whom
/// it is picked, without a second value.
pub proof fn pick_within_threshold_is_kept(state: Allotment, flat: u64, settings: Settings)
    requires
        state.remaining > 0,
        state.awaiting is None,
        flat < state.occupancy.len(),
        state.occupancy[flat as int] <= settings.reroll_threshold,
    ensures
        after_draw(state, flat, settings) == moved_in(state, flat as int),
{
}

/// Empty flats hold nobody.
pub proof fn lemma_outset_is_empty(flats: nat, inhabitants: nat, upto: int)
    requires
        0 <= upto <= flats,
    ensures
        range_sum(outset(flats, inhabitants).occupancy, 0, upto) == 0,
    decreases upto,
{
    if upto > 0 {
        lemma_outset_is_empty(flats, inhabitants, upto - 1);
    }
}

/// Once nobody is left without a flat, the flats hold exactly the inhabitants
/// that were to be distributed, whatever was drawn.
pub proof fn all_inhabitants_are_housed(
    flats: nat,
    inhabitants: u64,
    values: Seq<u64>,
    settings: Settings,
)
    requires
        after_draws(outset(flats, inhabitants as nat), values, settings).remaining == 0,
    ensures
        sum(after_draws(outset(flats, inhabitants as nat), values, settings).occupancy)
            == inhabitants,
{
    lemma_outset_is_empty(flats, inhabitants as nat, flats as int);
    draws_keep_inhabitants(outset(flats, inhabitants as nat), values, settings);
}

/// The distribution of `inhabitants` inhabitants over the flats of
/// `buildings` after the values `values` have been drawn.
pub open spec fn distributed(
    buildings: Seq<Estate>,
    inhabitants: u64,
    values: Seq<u64>,
    settings: Settings,
) -> Allotment {
    after_draws(outset(total_flats(buildings), inhabitants as nat), values, settings)
}

/// As many empty flats as `flats`.
fn empty_flats(flats: usize) -> (r: Vec<u64>)
    ensures
        r@ == Seq::new(flats as nat, |i: int| 0u64),
        sum(r@) == 0,
{
    let mut out: Vec<u64> = Vec::new();
    let mut i: usize = 0;
    while i < flats
        invariant
            i <= flats,
            out.len() == i,
            sum(out@) == 0,
            forall|j: int| 0 <= j < i ==> out@[j] == 0,
        decreases flats - i,
    {
        let ghost before = out@;
        out.push(0);
        proof {
            assert(out@.drop_last() =~= before);
            lemma_range_sum_same(out@, before, 0, i as int);
        }
        i += 1;
    }
    assert(out@ =~= Seq::new(flats as nat, |i: int| 0u64));
    out
}

/// Sequences that agree on a range have the same sum there.
pub proof fn lemma_range_sum_same(a: Seq<u64>, b: Seq<u64>, from: int, to: int)
    requires
        0 <= from <= to,
        to <= a.len(),
        to <= b.len(),
        forall|i: int| from <= i < to ==> a[i] == b[i],
    ensures
        range_sum(a, from, to) == range_sum(b, from, to),
    decreases to - from,
{
    if from < to {
        lemma_range_sum_same(a, b, from, to - 1);
    }
}

/// Places `inhabitants` inhabitants in `flats` flats and gives the number of
/// inhabitants of each flat.
///
/// For each inhabitant a flat is drawn uniformly. Where the flat is fuller
/// than the reroll threshold, a second value is drawn uniformly from the
/// numbers below `reroll_probability`; a value above the threshold has the
/// pick refused and another flat drawn for the same inhabitant. Where
/// `reroll_probability` is not positive there is no second value, and no pick
/// is refused. After [`REROLL_LIMIT`] refusals in a row the pick is kept, so
/// that the distribution ends whatever is drawn.
pub fn draw_occupancy(
    flats: usize,
    inhabitants: u64,
    config: &Config,
    rng: &mut RandomSource,
) -> (occupancy: Vec<u64>)
    requires
        flats >= 1,
    ensures
        drawn_on(*old(rng), *final(rng)),
        ({
            let end = after_draws(
                outset(flats as nat, inhabitants as nat),
                drawn_between(*old(rng), *final(rng)),
                config@,
            );
            &&& occupancy@ == end.occupancy
            &&& end.remaining == 0
            &&& end.awaiting is None
        }),
        occupancy.len() == flats,
        sum(occupancy@) == inhabitants,
        final(rng).draws() >= old(rng).draws() + inhabitants,
{
    let ghost first = outset(flats as nat, inhabitants as nat);
    let ghost mut values: Seq<u64> = Seq::empty();
    let mut occupancy = empty_flats(flats);
    let mut remaining: u64 = inhabitants;
    let mut refusals: u64 = 0;
    proof {
        assert(rng.drawn() + values =~= rng.drawn());
    }
    while remaining > 0
        invariant
            flats >= 1,
            occupancy.len() == flats,
            sum(occupancy@) + remaining == inhabitants,
            first == outset(flats as nat, inhabitants as nat),
            rng.drawn() == old(rng).drawn() + values,
            values.len() >= inhabitants - remaining,
            after_draws(first, values, config@) == (Allotment {
                occupancy: occupancy@,
                remaining: remaining as nat,
                refusals: refusals as nat,
                awaiting: None,
            }),
        decreases remaining, REROLL_LIMIT - refusals,
    {
        let ghost state = after_draws(first, values, config@);
        let flat = rng.below(flats as u64) as usize;
        let ghost picked = after_draw(state, flat as u64, config@);
        proof {
            assert(values.push(flat as u64).drop_last() =~= values);
            assert(rng.drawn() =~= old(rng).drawn() + values.push(flat as u64));
            values = values.push(flat as u64);
            assert(after_draws(first, values, config@) == picked);
        }
        let current = occupancy[flat];
        let mut refused = false;
        if refusals < REROLL_LIMIT && needs_second_draw(current, config) {
            let second = rng.below(config.reroll_probability() as u64);
            proof {
                assert(picked.awaiting == Some(flat as int));
                assert(values.push(second).drop_last() =~= values);
                assert(rng.drawn() =~= old(rng).drawn() + values.push(second));
                values = values.push(second);
                assert(after_draws(first, values, config@) == after_draw(
                    picked,
                    second,
                    config@,
                ));
            }
            refused = is_refused(second, config);
        }
        if refused {
            refusals = refusals + 1;
        } else {
            proof {
                lemma_range_sum_bound(occupancy@, 0, flats as int);
                lemma_range_sum_update(
                    occupancy@,
                    0,
                    flats as int,
                    flat as int,
                    (current + 1) as u64,
                );
            }
            occupancy.set(flat, current + 1);
            remaining = remaining - 1;
            refusals = 0;
        }
    }
    proof {
        assert(drawn_between(*old(rng), *rng) =~= values);
    }
    occupancy
}

impl Buildings {
    /// Gives each building the inhabitants of its own flats, where
    /// `occupancy` holds the inhabitants of each flat of all buildings, the
    /// flats numbered in the order of the buildings.
    pub fn apply_occupancy(&mut self, occupancy: &Vec<u64>)
        requires
            occupancy.len() == total_flats(old(self)@),
            sum(occupancy@) <= u64::MAX,
        ensures
            settled(old(self)@, final(self)@, occupancy@),
            total_population(final(self)@) == sum(occupancy@),
    {
        let ghost before = self@;
        let mut offset: usize = 0;
        let mut i: usize = 0;
        while i < self.0.len()
            invariant
                i <= self.0.len(),
                occupancy.len() == total_flats(before),
                sum(occupancy@) <= u64::MAX,
                same_but_population(before, self@),
                offset == first_flat(before, i as int),
                forall|j: int| 0 <= j < i ==> (#[trigger] self@[j]).pop == population_of(
                    before,
                    occupancy@,
                    j,
                ),
            decreases self.0.len() - i,
        {
            let flats = self.0[i].flats;
            proof {
                assert(self@[i as int].flats == flats);
                assert(before.take(i + 1).drop_last() =~= before.take(i as int));
                lemma_total_flats_grows(before, i + 1);
            }
            let mut population: u64 = 0;
            let mut k: usize = 0;
            while k < flats
                invariant
                    k <= flats,
                    offset + flats <= occupancy.len(),
                    sum(occupancy@) <= u64::MAX,
                    population == range_sum(occupancy@, offset as int, offset + k),
                decreases flats - k,
            {
                proof {
                    lemma_range_sum_bound(occupancy@, offset as int, offset + k + 1);
                }
                population = population + occupancy[offset + k];
                k += 1;
            }
            let ghost held = self@;
            self.0[i].pop = population;
            proof {
                assert(self@ =~= held.update(
                    i as int,
                    Estate { pop: population as nat, ..held[i as int] },
                ));
            }
            offset = offset + flats;
            i += 1;
        }
        proof {
            populations_add_up(before, self@, occupancy@);
        }
    }

    /// Distributes `inhabitants_total` inhabitants over the flats of all
    /// buildings, and gives each building the inhabitants of its flats.
    ///
    /// The flats are filled as [`draw_occupancy`] fills them. Fails, and
    /// leaves the buildings as they are, where they hold no flat at all, or
    /// more flats than the machine's integers can count.
    pub fn distribute_population(
        &mut self,
        inhabitants_total: u64,
        config: &Config,
        rng: &mut RandomSource,
    ) -> (r: Result<(), Error>)
        ensures
            drawn_on(*old(rng), *final(rng)),
            match r {
                Ok(_) => {
                    &&& 1 <= total_flats(old(self)@) <= usize::MAX
                    &&& settled(
                        old(self)@,
                        final(self)@,
                        distributed(
                            old(self)@,
                            inhabitants_total,
                            drawn_between(*old(rng), *final(rng)),
                            config@,
                        ).occupancy,
                    )
                    &&& distributed(
                        old(self)@,
                        inhabitants_total,
                        drawn_between(*old(rng), *final(rng)),
                        config@,
                    ).remaining == 0
                    &&& total_population(final(self)@) == inhabitants_total
                    &&& forall|i: int|
                        0 <= i < final(self)@.len() && (#[trigger] final(self)@[i]).flats == 0
                            ==> final(self)@[i].pop == 0
                    &&& final(rng).draws() >= old(rng).draws() + inhabitants_total
                },
                Err(Error::NoCapacity) => {
                    &&& total_flats(old(self)@) == 0
                    &&& final(self)@ == old(self)@
                    &&& final(rng).drawn() == old(rng).drawn()
                },
                Err(Error::Overflow) => {
                    &&& total_flats(old(self)@) > usize::MAX
                    &&& final(self)@ == old(self)@
                    &&& final(rng).drawn() == old(rng).drawn()
                },
            },
    {
        let flats = match self.total_flats() {
            None => {
                return Err(Error::Overflow);
            },
            Some(flats) => flats,
        };
        if flats == 0 {
            return Err(Error::NoCapacity);
        }
        let occupancy = draw_occupancy(flats, inhabitants_total, config, rng);
        self.apply_occupancy(&occupancy);
        Ok(())
    }
}

/// The number of equally likely values from which a household size is drawn.
pub const HOUSEHOLD_DRAWS: u64 = 100_000_000;

/// The household size that the value `draw` stands for. Of the
/// [`HOUSEHOLD_DRAWS`] values, 20 737 853 stand for one person, 33 310 260 for
/// two, 17 661 846 for three, 18 911 436 for four and 9 378 605 for five.
pub open spec fn household_size_of(draw: int) -> int {
    if draw < 20_737_853 {
        1
    } else if draw < 54_048_113 {
        2
    } else if draw < 71_709_959 {
        3
    } else if draw < 90_621_395 {
        4
    } else {
        5
    }
}

/// Executable form of [`household_size_of`].
pub fn household_size(draw: u64) -> (r: u64)
    ensures
        r == household_size_of(draw as int),
        1 <= r <= 5,
{
    if draw < 20_737_853 {
        1
    } else if draw < 54_048_113 {
        2
    } else if draw < 71_709_959 {
        3
    } else if draw < 90_621_395 {
        4
    } else {
        5
    }
}

/// Whether each of `after` holds at least one and at most five inhabitants
/// for each of its flats.
pub open spec fn housed_by_flat(after: Seq<Estate>) -> bool {
    forall|i: int|
        0 <= i < after.len() ==> (#[trigger] after[i]).flats <= after[i].pop <= 5
            * after[i].flats
}

/// Whether the inhabitants of each of `buildings`, at five for each flat, can
/// be counted in 64 bits.
pub open spec fn households_fit(buildings: Seq<Estate>) -> bool {
    forall|i: int| 0 <= i < buildings.len() ==> 5 * (#[trigger] buildings[i]).flats <= u64::MAX
}

/// The household sizes that the values `values` stand for, one for each.
pub open spec fn household_sizes(values: Seq<u64>) -> Seq<u64> {
    Seq::new(values.len(), |i: int| household_size_of(values[i] as int) as u64)
}

/// The sum of the second of two sequences is the sum of its place in both
/// together.
pub proof fn lemma_range_sum_shift(a: Seq<u64>, b: Seq<u64>, count: int)
    requires
        0 <= count <= b.len(),
    ensures
        range_sum(a + b, a.len() as int, a.len() + count) == range_sum(b, 0, count),
    decreases count,
{
    if count > 0 {
        lemma_range_sum_shift(a, b, count - 1);
        assert((a + b)[a.len() + count - 1] == b[count - 1]);
    }
}

/// The inhabitants of a building of `flats` flats, one household for each flat.
pub fn draw_households(flats: usize, rng: &mut RandomSource) -> (r: u64)
    requires
        5 * flats <= u64::MAX,
    ensures
        drawn_on(*old(rng), *final(rng)),
        drawn_between(*old(rng), *final(rng)).len() == flats,
        r == sum(household_sizes(drawn_between(*old(rng), *final(rng)))),
        flats <= r <= 5 * flats,
{
    let ghost mut values: Seq<u64> = Seq::empty();
    let mut population: u64 = 0;
    let mut k: usize = 0;
    proof {
        assert(rng.drawn() + values =~= rng.drawn());
    }
    while k < flats
        invariant
            k <= flats,
            5 * flats <= u64::MAX,
            k <= population <= 5 * k,
            values.len() == k,
            rng.drawn() == old(rng).drawn() + values,
            population == sum(household_sizes(values)),
        decreases flats - k,
    {
        let value = rng.below(HOUSEHOLD_DRAWS);
        let size = household_size(value);
        proof {
            let longer = values.push(value);
            assert(rng.drawn() =~= old(rng).drawn() + longer);
            lemma_range_sum_same(household_sizes(longer), household_sizes(values), 0, k as int);
            values = longer;
        }
        population = population + size;
        k += 1;
    }
    proof {
        assert(drawn_between(*old(rng), *rng) =~= values);
    }
    population
}

/// The first flat of a building is that of the next building, less its own
/// flats, and no flat lies beyond the flats of all buildings.
pub proof fn lemma_first_flat(buildings: Seq<Estate>, index: int)
    requires
        0 <= index < buildings.len(),
    ensures
        first_flat(buildings, index + 1) == first_flat(buildings, index) + buildings[index].flats,
        first_flat(buildings, index + 1) <= total_flats(buildings),
{
    assert(buildings.take(index + 1).drop_last() =~= buildings.take(index));
    lemma_total_flats_grows(buildings, index + 1);
}

/// The flats of a building lie before those of every later building.
pub proof fn lemma_first_flat_grows(buildings: Seq<Estate>, earlier: int, later: int)
    requires
        0 <= earlier <= later <= buildings.len(),
    ensures
        first_flat(buildings, earlier) <= first_flat(buildings, later),
{
    assert(buildings.take(later).take(earlier) =~= buildings.take(earlier));
    lemma_total_flats_grows(buildings.take(later), earlier);
}

impl Buildings {
    /// Whether the inhabitants of each building, at five for each flat, can be
    /// counted in 64 bits.
    pub fn households_fit(&self) -> (r: bool)
        ensures
            r == households_fit(self@),
    {
        let mut i: usize = 0;
        while i < self.0.len()
            invariant
                i <= self.0.len(),
                forall|j: int| 0 <= j < i ==> 5 * (#[trigger] self@[j]).flats <= u64::MAX,
            decreases self.0.len() - i,
        {
            if self.0[i].flats as u128 * 5 > u64::MAX as u128 {
                assert(5 * self@[i as int].flats > u64::MAX);
                return false;
            }
            assert(5 * self@[i as int].flats <= u64::MAX);
            i += 1;
        }
        true
    }

    /// Estimates the inhabitants of each building: one household for each of
    /// its flats, the size of each drawn on its own.
    ///
    /// One value is drawn for each flat, in the order of the flats, and each
    /// building gets the households of its own flats. A building without flats
    /// gets no inhabitants, and nothing is drawn for it. Fails, and leaves the
    /// buildings as they are, where the inhabitants of a building could exceed
    /// 64 bits.
    pub fn estimate_population(&mut self, rng: &mut RandomSource) -> (r: Result<(), Error>)
        ensures
            drawn_on(*old(rng), *final(rng)),
            match r {
                Ok(_) => {
                    &&& households_fit(old(self)@)
                    &&& drawn_between(*old(rng), *final(rng)).len() == total_flats(old(self)@)
                    &&& settled(
                        old(self)@,
                        final(self)@,
                        household_sizes(drawn_between(*old(rng), *final(rng))),
                    )
                    &&& housed_by_flat(final(self)@)
                    &&& final(rng).draws() == old(rng).draws() + total_flats(old(self)@)
                },
                Err(error) => {
                    &&& error == Error::Overflow
                    &&& !households_fit(old(self)@)
                    &&& final(self)@ == old(self)@
                    &&& final(rng).drawn() == old(rng).drawn()
                },
            },
    {
        if !self.households_fit() {
            return Err(Error::Overflow);
        }
        let ghost before = self@;
        let ghost mut values: Seq<u64> = Seq::empty();
        let mut i: usize = 0;
        proof {
            assert(rng.drawn() + values =~= rng.drawn());
        }
        while i < self.0.len()
            invariant
                i <= self.0.len(),
                households_fit(before),
                same_but_population(before, self@),
                rng.drawn() == old(rng).drawn() + values,
                values.len() == first_flat(before, i as int),
                forall|j: int|
                    0 <= j < i ==> (#[trigger] self@[j]).pop == population_of(
                        before,
                        household_sizes(values),
                        j,
                    ),
                forall|j: int|
                    0 <= j < i ==> (#[trigger] self@[j]).flats <= self@[j].pop <= 5
                        * self@[j].flats,
            decreases self.0.len() - i,
        {
            proof {
                lemma_first_flat(before, i as int);
                assert(5 * before[i as int].flats <= u64::MAX);
                assert(self@[i as int].flats == self.0@[i as int].flats);
            }
            let ghost earlier = *rng;
            let population = draw_households(self.0[i].flats, rng);
            let ghost held = self@;
            self.0[i].pop = population;
            proof {
                let drawn = drawn_between(earlier, *rng);
                let longer = values + drawn;
                assert(rng.drawn() =~= earlier.drawn() + drawn);
                assert(rng.drawn() =~= old(rng).drawn() + longer);
                assert(household_sizes(longer) =~= household_sizes(values) + household_sizes(
                    drawn,
                ));
                lemma_range_sum_shift(
                    household_sizes(values),
                    household_sizes(drawn),
                    drawn.len() as int,
                );
                assert(self@ =~= held.update(
                    i as int,
                    Estate { pop: population as nat, ..held[i as int] },
                ));
                assert forall|j: int| 0 <= j < i implies (#[trigger] self@[j]).pop
                    == population_of(before, household_sizes(longer), j) by {
                    lemma_first_flat(before, j);
                    lemma_first_flat_grows(before, j + 1, i as int);
                    lemma_range_sum_same(
                        household_sizes(longer),
                        household_sizes(values),
                        first_flat(before, j) as int,
                        first_flat(before, j + 1) as int,
                    );
                }
                values = longer;
            }
            i += 1;
        }
        proof {
            assert(before.take(i as int) =~= before);
            assert(drawn_between(*old(rng), *rng) =~= values);
        }
        Ok(())
    }
}

/// A building without flats is estimated to have no inhabitants.
pub proof fn no_flats_no_household(after: Seq<Estate>, index: int)
    requires
        housed_by_flat(after),
        0 <= index < after.len(),
        after[index].flats == 0,
    ensures
        after[index].pop == 0,
{
}

} // verus!
