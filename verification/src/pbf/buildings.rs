//! Buildings with their flats and inhabitants, and the collection of them in
//! the order of the map data.

use crate::config::{Config, Settings};
use crate::error::{Diagnostic, Error, Problem};
use crate::pbf::flats::{flat_count, flat_count_problems};
use crate::pbf::geometry::{GenericGeometry, Point, Shape};
use crate::pbf::way::{
    house_number_problems, house_numbers_of, is_in_any, is_within_any, Address, GenericWay,
    HouseNumberPoint, Outline,
};
use vstd::prelude::*;
use vstd::std_specs::iter::IteratorSpec;

verus! {

/// A building: its shape, the number of its flats and of its inhabitants.
#[derive(Debug, PartialEq, Clone)]
pub struct Building {
    /// The footprint, or the point that stands for it.
    pub geometry: GenericGeometry,
    /// The number of flats.
    pub flats: usize,
    /// The number of inhabitants.
    pub pop: u64,
}

impl Building {
    /// Reduces the building to the point `center`. A building that is a point
    /// already stays where it is.
    pub fn centroid(&mut self, center: Point)
        ensures
            final(self)@ == reduced(old(self)@, center),
    {
        let reduced = match &self.geometry {
            GenericGeometry::GenericPolygon(_) => true,
            GenericGeometry::GenericPoint(_) => false,
        };
        if reduced {
            self.geometry = GenericGeometry::GenericPoint(center);
        }
    }
}

/// The mathematical form of a building.
pub struct Estate {
    /// The shape.
    pub shape: Shape,
    /// The number of flats.
    pub flats: nat,
    /// The number of inhabitants.
    pub pop: nat,
}

impl View for Building {
    type V = Estate;

    open spec fn view(&self) -> Estate {
        Estate { shape: self.geometry@, flats: self.flats as nat, pop: self.pop as nat }
    }
}

impl DeepView for Building {
    type V = Estate;

    open spec fn deep_view(&self) -> Estate {
        self@
    }
}

/// The number of flats of a way, from its tags and from the house numbers of
/// its own tag and of the address points inside it.
pub open spec fn flats_of_way(
    way: Outline,
    points: Seq<Address>,
    settings: Settings,
) -> int {
    flat_count(way.tags, house_numbers_of(way, points).len(), settings)
}

/// What a way gives to report: first what its house numbers give, then what
/// the estimate of its flats gives.
pub open spec fn way_problems(
    way: Outline,
    points: Seq<Address>,
    settings: Settings,
) -> Seq<Problem> {
    house_number_problems(way, points) + flat_count_problems(way.tags, settings)
}

/// The building that a way stands for: its footprint, its flats and no
/// inhabitants yet.
pub open spec fn estate_of(
    way: Outline,
    points: Seq<Address>,
    settings: Settings,
) -> Estate {
    Estate {
        shape: Shape::Polygon(way.ring),
        flats: flats_of_way(way, points, settings) as nat,
        pop: 0,
    }
}

/// The buildings that `ways` stand for, in their order.
pub open spec fn estates_of(
    ways: Seq<Outline>,
    points: Seq<Address>,
    settings: Settings,
) -> Seq<Estate> {
    Seq::new(ways.len(), |i: int| estate_of(ways[i], points, settings))
}

/// What the first `count` of `ways` give to report, in their order: of a way
/// that is excluded what its house numbers give, of any other way also what
/// the estimate of its flats gives.
pub open spec fn candidate_problems(
    ways: Seq<Outline>,
    points: Seq<Address>,
    within: Seq<bool>,
    settings: Settings,
    count: int,
) -> Seq<Problem>
    decreases count,
{
    if count <= 0 {
        Seq::empty()
    } else if is_excluded_at(within, count - 1) {
        candidate_problems(ways, points, within, settings, count - 1) + house_number_problems(
            ways[count - 1],
            points,
        )
    } else {
        candidate_problems(ways, points, within, settings, count - 1) + way_problems(
            ways[count - 1],
            points,
            settings,
        )
    }
}

/// Whether the flats of each of `ways` that is not excluded can be counted by
/// the machine.
pub open spec fn candidates_fit(
    ways: Seq<Outline>,
    points: Seq<Address>,
    within: Seq<bool>,
    settings: Settings,
) -> bool {
    forall|i: int|
        0 <= i < ways.len() && !is_excluded_at(within, i) ==> flats_of_way(
            #[trigger] ways[i],
            points,
            settings,
        ) <= usize::MAX
}

/// What all of `ways` give to report where none is excluded.
pub open spec fn problems_of_ways(
    ways: Seq<Outline>,
    points: Seq<Address>,
    settings: Settings,
) -> Seq<Problem> {
    candidate_problems(ways, points, Seq::empty(), settings, ways.len() as int)
}

/// Whether the flats of each of `ways` can be counted by the machine.
pub open spec fn flats_fit(
    ways: Seq<Outline>,
    points: Seq<Address>,
    settings: Settings,
) -> bool {
    candidates_fit(ways, points, Seq::empty(), settings)
}

/// The building `estate`, reduced to `center` where it is a footprint.
pub open spec fn reduced(estate: Estate, center: Point) -> Estate {
    match estate.shape {
        Shape::Polygon(_) => Estate { shape: Shape::Point(center), ..estate },
        Shape::Point(_) => estate,
    }
}

/// The buildings `estates`, each reduced to its center; a building without a
/// center stays as it is.
pub open spec fn all_reduced(estates: Seq<Estate>, centers: Seq<Point>) -> Seq<Estate> {
    Seq::new(
        estates.len(),
        |i: int|
            if i < centers.len() {
                reduced(estates[i], centers[i])
            } else {
                estates[i]
            },
    )
}

impl GenericWay {
    /// The building that the way stands for: its footprint, the estimate of
    /// its flats, and no inhabitants yet.
    ///
    /// What the tags give to report is added to `diagnostics`. Fails where the
    /// flats cannot be counted by the machine.
    pub fn calculate_building_metrics(
        &self,
        house_number_points: &[HouseNumberPoint],
        config: &Config,
        diagnostics: &mut Vec<Diagnostic>,
    ) -> (r: Result<Building, Error>)
        ensures
            final(diagnostics).deep_view() == old(diagnostics).deep_view() + way_problems(
                self@,
                house_number_points.deep_view(),
                config@,
            ),
            match r {
                Ok(building) => building@ == estate_of(self@, house_number_points.deep_view(), config@),
                Err(error) => error == Error::Overflow && flats_of_way(
                    self@,
                    house_number_points.deep_view(),
                    config@,
                ) > usize::MAX,
            },
    {
        let ghost reported = diagnostics.deep_view();
        let house_number_count = self.calculate_house_number_count(
            house_number_points,
            diagnostics,
        );
        let counted = self.calculate_flat_count(house_number_count, config, diagnostics);
        proof {
            assert(diagnostics.deep_view() =~= reported + way_problems(
                self@,
                house_number_points.deep_view(),
                config@,
            ));
        }
        match counted {
            Ok(flats) => Ok(
                Building {
                    geometry: GenericGeometry::GenericPolygon(self.polygon.clone()),
                    flats,
                    pop: 0,
                },
            ),
            Err(error) => Err(error),
        }
    }
}

/// The buildings of a run, in the order of the map data.
#[derive(Debug)]
pub struct Buildings(pub(crate) Vec<Building>);

impl View for Buildings {
    type V = Seq<Estate>;

    open(crate) spec fn view(&self) -> Seq<Estate> {
        self.0.deep_view()
    }
}

/// The flats of all `buildings` together.
pub open spec fn total_flats(buildings: Seq<Estate>) -> nat
    decreases buildings.len(),
{
    if buildings.len() == 0 {
        0
    } else {
        total_flats(buildings.drop_last()) + buildings.last().flats
    }
}

/// The inhabitants of all `buildings` together.
pub open spec fn total_population(buildings: Seq<Estate>) -> nat
    decreases buildings.len(),
{
    if buildings.len() == 0 {
        0
    } else {
        total_population(buildings.drop_last()) + buildings.last().pop
    }
}

/// The buildings up to any place hold no more flats than all of them.
pub proof fn lemma_total_flats_grows(buildings: Seq<Estate>, count: int)
    requires
        0 <= count <= buildings.len(),
    ensures
        total_flats(buildings.take(count)) <= total_flats(buildings),
    decreases buildings.len(),
{
    if count == buildings.len() {
        assert(buildings.take(count) =~= buildings);
    } else {
        assert(buildings.drop_last().take(count) =~= buildings.take(count));
        lemma_total_flats_grows(buildings.drop_last(), count);
    }
}

/// Whether `after` are the buildings `before` with other inhabitants, and
/// everything else as it was.
pub open spec fn same_but_population(before: Seq<Estate>, after: Seq<Estate>) -> bool {
    &&& after.len() == before.len()
    &&& forall|i: int|
        0 <= i < before.len() ==> (#[trigger] after[i]).shape == before[i].shape && after[i].flats
            == before[i].flats
}

/// The buildings that the verdicts do not exclude, in their order. A building
/// is excluded where its verdict in `within` is true; a building without a
/// verdict is kept.
pub open spec fn kept<T>(buildings: Seq<T>, within: Seq<bool>) -> Seq<T>
    decreases buildings.len(),
{
    if buildings.len() == 0 {
        Seq::empty()
    } else if is_excluded_at(within, buildings.len() - 1) {
        kept(buildings.drop_last(), within)
    } else {
        kept(buildings.drop_last(), within).push(buildings.last())
    }
}

/// Without verdicts every building is kept.
pub proof fn lemma_kept_all<T>(buildings: Seq<T>)
    ensures
        kept(buildings, Seq::empty()) == buildings,
    decreases buildings.len(),
{
    if buildings.len() > 0 {
        lemma_kept_all(buildings.drop_last());
        assert(buildings.drop_last().push(buildings.last()) =~= buildings);
    } else {
        assert(kept(buildings, Seq::empty()) =~= buildings);
    }
}

/// What is kept is what is not excluded: a building is among the kept ones
/// exactly where it stands at a place whose verdict is not true.
pub proof fn kept_are_those_not_excluded<T>(buildings: Seq<T>, within: Seq<bool>, building: T)
    ensures
        kept(buildings, within).contains(building) <==> exists|i: int|
            0 <= i < buildings.len() && #[trigger] buildings[i] == building && !is_excluded_at(
                within,
                i,
            ),
    decreases buildings.len(),
{
    if buildings.len() > 0 {
        let before = buildings.drop_last();
        let last = buildings.len() - 1;
        kept_are_those_not_excluded(before, within, building);
        if kept(buildings, within).contains(building) {
            if kept(before, within).contains(building) {
                let i = choose|i: int|
                    0 <= i < before.len() && #[trigger] before[i] == building && !is_excluded_at(
                        within,
                        i,
                    );
                assert(buildings[i] == building);
            } else {
                assert(!is_excluded_at(within, last));
                let at = choose|k: int|
                    0 <= k < kept(buildings, within).len() && kept(buildings, within)[k]
                        == building;
                assert(kept(buildings, within) == kept(before, within).push(buildings.last()));
                if at < kept(before, within).len() {
                    assert(kept(before, within)[at] == building);
                }
                assert(buildings[last] == building);
            }
        }
        if exists|i: int|
            0 <= i < buildings.len() && #[trigger] buildings[i] == building && !is_excluded_at(
                within,
                i,
            ) {
            let i = choose|i: int|
                0 <= i < buildings.len() && #[trigger] buildings[i] == building
                    && !is_excluded_at(within, i);
            if i < last {
                assert(before[i] == building);
                let at = choose|k: int|
                    0 <= k < kept(before, within).len() && kept(before, within)[k] == building;
                if !is_excluded_at(within, last) {
                    assert(kept(buildings, within)[at] == building);
                }
            } else {
                assert(kept(buildings, within).last() == building);
            }
        }
    }
}

/// Exclusion goes by the areas that contain a building, not by those that
/// the building contains: a building is among those kept exactly where no
/// exclusion area contains it.
pub proof fn exclusion_drops_what_areas_contain(
    estates: Seq<Estate>,
    areas: Seq<Outline>,
    index: int,
)
    requires
        0 <= index < estates.len(),
    ensures
        kept(estates, within_areas(estates, areas)).contains(estates[index]) <==> !is_within_any(
            areas,
            estates[index].shape,
        ),
{
    let within = within_areas(estates, areas);
    kept_are_those_not_excluded(estates, within, estates[index]);
    if kept(estates, within).contains(estates[index]) {
        let i = choose|i: int|
            0 <= i < estates.len() && #[trigger] estates[i] == estates[index] && !is_excluded_at(
                within,
                i,
            );
        assert(!is_within_any(areas, estates[i].shape));
    }
}

/// For each of `estates`, whether one of `areas` contains it.
pub open spec fn within_areas(estates: Seq<Estate>, areas: Seq<Outline>) -> Seq<bool> {
    Seq::new(estates.len(), |i: int| is_within_any(areas, estates[i].shape))
}

/// Whether the verdict at `index` of `within` is true.
pub open spec fn is_excluded_at(within: Seq<bool>, index: int) -> bool {
    0 <= index < within.len() && within[index]
}

impl Buildings {
    /// The buildings `buildings`, in their order.
    pub fn new(buildings: Vec<Building>) -> (r: Self)
        ensures
            r@ == buildings.deep_view(),
    {
        Buildings(buildings)
    }

    /// The buildings, in their order.
    pub fn into_inner(self) -> (r: Vec<Building>)
        ensures
            r.deep_view() == self@,
    {
        self.0
    }

    /// The buildings as they are held, in their order.
    pub open(crate) spec fn as_seq(&self) -> Seq<Building> {
        self.0@
    }

    /// The buildings, in their order.
    pub fn as_slice(&self) -> (r: &[Building])
        ensures
            r@ == self.as_seq(),
    {
        self.0.as_slice()
    }

    /// The buildings that `ways` stand for, in their order, each with the
    /// estimate of its flats and without inhabitants.
    ///
    /// What the ways give to report is added to `diagnostics`. Fails, and
    /// reports nothing, where the flats of a way cannot be counted by the
    /// machine.
    pub fn from_ways(
        ways: &Vec<GenericWay>,
        house_number_points: &Vec<HouseNumberPoint>,
        config: &Config,
        diagnostics: &mut Vec<Diagnostic>,
    ) -> (r: Result<Buildings, Error>)
        ensures
            match r {
                Ok(buildings) => {
                    &&& flats_fit(ways.deep_view(), house_number_points.deep_view(), config@)
                    &&& buildings@ == estates_of(ways.deep_view(), house_number_points.deep_view(), config@)
                    &&& final(diagnostics).deep_view() == old(diagnostics).deep_view()
                        + problems_of_ways(ways.deep_view(), house_number_points.deep_view(), config@)
                },
                Err(error) => {
                    &&& error == Error::Overflow
                    &&& !flats_fit(ways.deep_view(), house_number_points.deep_view(), config@)
                    &&& final(diagnostics).deep_view() == old(diagnostics).deep_view()
                },
            },
    {
        let none_excluded: Vec<bool> = Vec::new();
        proof {
            lemma_kept_all(estates_of(ways.deep_view(), house_number_points.deep_view(), config@));
            assert(none_excluded@ =~= Seq::<bool>::empty());
        }
        Buildings::from_candidates(ways, house_number_points, &none_excluded, config, diagnostics)
    }

    /// The buildings that those of `ways` stand for that are not excluded, in
    /// their order, each with the estimate of its flats and without
    /// inhabitants.
    ///
    /// `within` holds one verdict for each way: whether an exclusion area
    /// contains it. The house numbers of every way are read, and the flats of
    /// those that are not excluded are estimated; what that gives to report is
    /// added to `diagnostics`. Fails, and reports nothing, where the flats of
    /// a way that is not excluded cannot be counted by the machine.
    pub fn from_candidates(
        ways: &Vec<GenericWay>,
        house_number_points: &Vec<HouseNumberPoint>,
        within: &Vec<bool>,
        config: &Config,
        diagnostics: &mut Vec<Diagnostic>,
    ) -> (r: Result<Buildings, Error>)
        ensures
            match r {
                Ok(buildings) => {
                    &&& candidates_fit(
                        ways.deep_view(),
                        house_number_points.deep_view(),
                        within@,
                        config@,
                    )
                    &&& buildings@ == kept(
                        estates_of(ways.deep_view(), house_number_points.deep_view(), config@),
                        within@,
                    )
                    &&& final(diagnostics).deep_view() == old(diagnostics).deep_view()
                        + candidate_problems(
                        ways.deep_view(),
                        house_number_points.deep_view(),
                        within@,
                        config@,
                        ways.len() as int,
                    )
                },
                Err(error) => {
                    &&& error == Error::Overflow
                    &&& !candidates_fit(
                        ways.deep_view(),
                        house_number_points.deep_view(),
                        within@,
                        config@,
                    )
                    &&& final(diagnostics).deep_view() == old(diagnostics).deep_view()
                },
            },
    {
        let ghost estates = estates_of(ways.deep_view(), house_number_points.deep_view(), config@);
        let mut found: Vec<Diagnostic> = Vec::new();
        let mut buildings: Vec<Building> = Vec::new();
        let mut i: usize = 0;
        while i < ways.len()
            invariant
                i <= ways.len(),
                estates == estates_of(ways.deep_view(), house_number_points.deep_view(), config@),
                buildings.deep_view() == kept(estates.take(i as int), within@),
                forall|j: int|
                    0 <= j < i && !is_excluded_at(within@, j) ==> flats_of_way(
                        #[trigger] ways.deep_view()[j],
                        house_number_points.deep_view(),
                        config@,
                    ) <= usize::MAX,
                found.deep_view() == candidate_problems(
                    ways.deep_view(),
                    house_number_points.deep_view(),
                    within@,
                    config@,
                    i as int,
                ),
            decreases ways.len() - i,
        {
            let ghost so_far = buildings.deep_view();
            proof {
                assert(estates.take(i + 1).drop_last() =~= estates.take(i as int));
                assert(estates.take(i + 1).last() == estates[i as int]);
            }
            if i < within.len() && within[i] {
                let _ = ways[i].house_numbers(house_number_points.as_slice(), &mut found);
            } else {
                match ways[i].calculate_building_metrics(
                    house_number_points.as_slice(),
                    config,
                    &mut found,
                ) {
                    Ok(building) => {
                        buildings.push(building);
                        assert(buildings.deep_view() =~= so_far.push(estates[i as int]));
                    },
                    Err(error) => {
                        assert(flats_of_way(
                            ways.deep_view()[i as int],
                            house_number_points.deep_view(),
                            config@,
                        ) > usize::MAX);
                        return Err(error);
                    },
                }
            }
            i += 1;
        }
        assert(estates.take(i as int) =~= estates);
        diagnostics.append(&mut found);
        Ok(Buildings(buildings))
    }

    /// Reduces each building to its center, where `centers` holds the centers
    /// of the buildings in their order. A building without a center stays as
    /// it is.
    pub fn centroid(&mut self, centers: &Vec<Point>)
        ensures
            final(self)@ == all_reduced(old(self)@, centers@),
    {
        let ghost before = self@;
        let mut i: usize = 0;
        while i < self.0.len() && i < centers.len()
            invariant
                i <= self.0.len(),
                i <= centers.len(),
                self.0.len() == before.len(),
                forall|j: int| 0 <= j < i ==> #[trigger] self@[j] == reduced(before[j], centers@[j]),
                forall|j: int| i <= j < before.len() ==> #[trigger] self@[j] == before[j],
            decreases self.0.len() - i,
        {
            let ghost held = self@;
            self.0[i].centroid(centers[i]);
            proof {
                assert(self@ =~= held.update(i as int, reduced(held[i as int], centers@[i as int])));
            }
            i += 1;
        }
        assert(self@ =~= all_reduced(before, centers@));
    }

    /// The buildings one by one, in their order.
    pub fn iter(&self) -> (r: core::slice::Iter<'_, Building>)
        ensures
            IteratorSpec::remaining(&r) == self.as_seq().as_ref(),
    {
        broadcast use vstd::std_specs::slice::axiom_spec_slice_iter;

        self.0.iter()
    }

    /// The number of buildings.
    pub fn len(&self) -> (r: usize)
        ensures
            r == self@.len(),
    {
        self.0.len()
    }

    /// The flats of all buildings together, where the machine's integers hold
    /// that number.
    pub fn total_flats(&self) -> (r: Option<usize>)
        ensures
            match r {
                Some(total) => total == total_flats(self@),
                None => total_flats(self@) > usize::MAX,
            },
    {
        let mut total: usize = 0;
        let mut i: usize = 0;
        while i < self.0.len()
            invariant
                i <= self.0.len(),
                total == total_flats(self@.take(i as int)),
            decreases self.0.len() - i,
        {
            let flats = self.0[i].flats;
            proof {
                assert(self@.take(i + 1).drop_last() =~= self@.take(i as int));
                lemma_total_flats_grows(self@, i + 1);
            }
            if flats > usize::MAX - total {
                return None;
            }
            total = total + flats;
            i += 1;
        }
        assert(self@.take(i as int) =~= self@);
        Some(total)
    }

    /// The inhabitants of all buildings together, where 64 bits hold that
    /// number.
    pub fn total_population(&self) -> (r: Option<u64>)
        ensures
            match r {
                Some(total) => total == total_population(self@),
                None => total_population(self@) > u64::MAX,
            },
    {
        let mut total: u64 = 0;
        let mut i: usize = 0;
        while i < self.0.len()
            invariant
                i <= self.0.len(),
                total == total_population(self@.take(i as int)),
            decreases self.0.len() - i,
        {
            let pop = self.0[i].pop;
            proof {
                assert(self@.take(i + 1).drop_last() =~= self@.take(i as int));
                lemma_total_population_grows(self@, i + 1);
            }
            if pop > u64::MAX - total {
                return None;
            }
            total = total + pop;
            i += 1;
        }
        assert(self@.take(i as int) =~= self@);
        Some(total)
    }

    /// Drops the buildings that one of `areas` contains, and keeps the others
    /// in their order.
    ///
    /// An area contains a building whose footprint has no point outside the
    /// area's footprint, and a building that is a point in the interior of
    /// the area's footprint.
    pub fn exclude_in(self, areas: &Vec<GenericWay>) -> (r: Self)
        ensures
            r@ == kept(self@, within_areas(self@, areas.deep_view())),
    {
        let ghost within = within_areas(self@, areas.deep_view());
        let ghost all = self.0@;
        let ghost estates = self@;
        let count = self.0.len();
        let mut out: Vec<Building> = Vec::new();
        let mut i: usize = 0;
        for building in it: self.0
            invariant
                i == it.index(),
                it.seq() == all,
                all.len() == count,
                estates.len() == all.len(),
                forall|j: int| 0 <= j < all.len() ==> estates[j] == (#[trigger] all[j])@,
                within == within_areas(estates, areas.deep_view()),
                out.deep_view() == kept(estates.take(i as int), within),
        {
            let ghost so_far = out.deep_view();
            proof {
                assert(estates.take(i + 1).drop_last() =~= estates.take(i as int));
                assert(estates.take(i + 1).last() == building@);
            }
            let excluded = is_in_any(areas, &building.geometry);
            if !excluded {
                out.push(building);
                assert(out.deep_view() =~= so_far.push(building@));
            }
            i += 1;
        }
        assert(estates.take(i as int) =~= estates);
        Buildings(out)
    }
}

/// The buildings up to any place hold no more inhabitants than all of them.
pub proof fn lemma_total_population_grows(buildings: Seq<Estate>, count: int)
    requires
        0 <= count <= buildings.len(),
    ensures
        total_population(buildings.take(count)) <= total_population(buildings),
    decreases buildings.len(),
{
    if count == buildings.len() {
        assert(buildings.take(count) =~= buildings);
    } else {
        assert(buildings.drop_last().take(count) =~= buildings.take(count));
        lemma_total_population_grows(buildings.drop_last(), count);
    }
}

impl IntoIterator for Buildings {
    type Item = Building;

    type IntoIter = std::vec::IntoIter<Building>;

    /// The buildings one by one, in their order.
    fn into_iter(self) -> (r: std::vec::IntoIter<Building>)
        ensures
            IteratorSpec::remaining(&r) == self.as_seq(),
    {
        broadcast use vstd::std_specs::vec::axiom_spec_into_iter;

        self.0.into_iter()
    }
}

} // verus!
