//! A run from the elements of a map extract to buildings with inhabitants.
//!
//! A run has two steps, which can be taken one by one or together: first the
//! elements are sorted into buildings, address points and exclusion areas;
//! then the buildings that no exclusion area contains get the address points
//! inside them, their flats and their inhabitants.

use crate::config::{Config, Settings};
use crate::error::{Diagnostic, Error, Problem};
use crate::pbf::buildings::{
    candidate_problems, candidates_fit, estates_of, kept, total_flats, total_population,
    Buildings, Estate,
};
use crate::pbf::distribution::{
    distributed, household_sizes, households_fit, housed_by_flat, settled,
};
use crate::pbf::elements::{
    address_of, belongs_to, coordinates_of, load_housenumbers, load_ways, node_index, outline_of,
    select, unresolved_in, Element, Part, RawElement,
};
use crate::pbf::way::{
    footprints_within, ways_within, Address, GenericWay, HouseNumberPoint, Outline,
};
use crate::random::{drawn_between, drawn_on, RandomSource};
use vstd::prelude::*;

verus! {

/// What a run works on: the buildings, address points and exclusion areas of
/// a map extract.
#[derive(Debug)]
pub struct Extract {
    /// The footprints and tags of the buildings.
    pub buildings: Vec<GenericWay>,
    /// The address points.
    pub housenumbers: Vec<HouseNumberPoint>,
    /// The footprints and tags of the exclusion areas.
    pub areas: Vec<GenericWay>,
}

/// The mathematical form of an extract.
pub struct Parts {
    /// The footprints and tags of the buildings.
    pub buildings: Seq<Outline>,
    /// The address points.
    pub housenumbers: Seq<Address>,
    /// The footprints and tags of the exclusion areas.
    pub areas: Seq<Outline>,
}

impl View for Extract {
    type V = Parts;

    open spec fn view(&self) -> Parts {
        Parts {
            buildings: self.buildings.deep_view(),
            housenumbers: self.housenumbers.deep_view(),
            areas: self.areas.deep_view(),
        }
    }
}

/// The elements of `elements` that belong to `part`.
pub open spec fn part_of(elements: Seq<Element>, part: Part, settings: Settings) -> Seq<Element> {
    elements.filter(|element: Element| belongs_to(element, part, settings))
}

/// The extract that `elements` hold: the footprints of the buildings and of
/// the exclusion areas among them, and the address points, each in the order
/// of the elements. The coordinates of a way's nodes are those of the nodes
/// among `elements`; a way with a node that is not among them has no
/// footprint and is left out.
pub open spec fn parts_of(elements: Seq<Element>, settings: Settings) -> Parts {
    let known = coordinates_of(elements);
    Parts {
        buildings: part_of(elements, Part::Buildings, settings).filter_map(
            |element: Element| outline_of(element, known),
        ),
        housenumbers: part_of(elements, Part::HouseNumbers, settings).filter_map(
            |element: Element| address_of(element),
        ),
        areas: part_of(elements, Part::ExcludeAreas, settings).filter_map(
            |element: Element| outline_of(element, known),
        ),
    }
}

/// What the elements give to report when they are sorted: the ways that were
/// left out, the buildings before the exclusion areas.
pub open spec fn unresolved_of(elements: Seq<Element>, settings: Settings) -> Seq<Problem> {
    let known = coordinates_of(elements);
    part_of(elements, Part::Buildings, settings).filter_map(
        |element: Element| unresolved_in(element, known),
    ) + part_of(elements, Part::ExcludeAreas, settings).filter_map(
        |element: Element| unresolved_in(element, known),
    )
}

/// Sorts the elements of a map extract into buildings, address points and
/// exclusion areas, each in the order of the elements.
///
/// The coordinates of a way's nodes are looked up among all nodes of the
/// extract. A way with a node that the extract does not hold is left out and
/// added to `diagnostics`, the buildings before the exclusion areas.
pub fn load_extract(
    elements: &Vec<RawElement>,
    config: &Config,
    diagnostics: &mut Vec<Diagnostic>,
) -> (r: Extract)
    ensures
        r@ == parts_of(elements.deep_view(), config@),
        final(diagnostics).deep_view() == old(diagnostics).deep_view() + unresolved_of(
            elements.deep_view(),
            config@,
        ),
{
    let known = node_index(elements);
    let osm_buildings = select(elements, Part::Buildings, config);
    let osm_housenumbers = select(elements, Part::HouseNumbers, config);
    let osm_exclude_areas = select(elements, Part::ExcludeAreas, config);
    let buildings = load_ways(&osm_buildings, &known, diagnostics);
    let housenumbers = load_housenumbers(&osm_housenumbers);
    let areas = load_ways(&osm_exclude_areas, &known, diagnostics);
    Extract { buildings, housenumbers, areas }
}

/// For each building of an extract, whether one of the exclusion areas
/// covers its footprint.
pub open spec fn excluded(parts: Parts) -> Seq<bool> {
    footprints_within(parts.buildings, parts.areas)
}

/// The buildings of an extract before they get inhabitants: those that no
/// exclusion area contains, each with its flats.
pub open spec fn candidates(parts: Parts, settings: Settings) -> Seq<Estate> {
    kept(estates_of(parts.buildings, parts.housenumbers, settings), excluded(parts))
}

/// Whether the flats of each building of an extract that no exclusion area
/// contains can be counted by the machine.
pub open spec fn fits(parts: Parts, settings: Settings) -> bool {
    candidates_fit(parts.buildings, parts.housenumbers, excluded(parts), settings)
}

/// What the buildings of an extract give to report: for each building what
/// its house numbers give, and for each that no exclusion area contains also
/// what the estimate of its flats gives.
pub open spec fn problems_of(parts: Parts, settings: Settings) -> Seq<Problem> {
    candidate_problems(
        parts.buildings,
        parts.housenumbers,
        excluded(parts),
        settings,
        parts.buildings.len() as int,
    )
}

/// Whether `buildings` are what a run makes of the extract `parts` with the
/// values `values` drawn: the buildings that no exclusion area contains, each
/// with its flats and with the inhabitants of its flats. With a target the
/// flats are filled as the rule of the distribution fills them; without one
/// each flat holds the household of its value.
pub open spec fn is_populated(
    parts: Parts,
    inhabitants: Option<u64>,
    settings: Settings,
    values: Seq<u64>,
    buildings: Seq<Estate>,
) -> bool {
    let before = candidates(parts, settings);
    match inhabitants {
        Some(target) => {
            &&& settled(before, buildings, distributed(before, target, values, settings).occupancy)
            &&& total_population(buildings) == target
        },
        None => {
            &&& settled(before, buildings, household_sizes(values))
            &&& housed_by_flat(buildings)
            &&& values.len() == total_flats(before)
        },
    }
}

/// Why a run of the extract `parts` fails, if it does: with `Overflow` where
/// the flats of a building, the flats of all buildings or the inhabitants of
/// a building leave the machine's range, and with `NoCapacity` where
/// inhabitants are given and the buildings hold no flat.
pub open spec fn failure_of(parts: Parts, inhabitants: Option<u64>, settings: Settings) -> Option<
    Error,
> {
    let before = candidates(parts, settings);
    if !fits(parts, settings) {
        Some(Error::Overflow)
    } else {
        match inhabitants {
            Some(_) => if total_flats(before) > usize::MAX {
                Some(Error::Overflow)
            } else if total_flats(before) == 0 {
                Some(Error::NoCapacity)
            } else {
                None
            },
            None => if households_fit(before) {
                None
            } else {
                Some(Error::Overflow)
            },
        }
    }
}

/// Gives the buildings of an extract their flats and their inhabitants.
///
/// Each building gets the house numbers of the address points inside it. A
/// building is dropped where an exclusion area covers its footprint, that
/// is, where the footprint has no point outside the area; the others get the
/// estimate of their flats. Then the `inhabitants` are distributed over the
/// flats; where none are given, the inhabitants are estimated flat by flat.
///
/// What the tags give to report is added to `diagnostics`. A run that fails
/// gives out no buildings, reports nothing and draws nothing.
pub fn populate_extract(
    extract: &Extract,
    inhabitants: &Option<u64>,
    config: &Config,
    rng: &mut RandomSource,
    diagnostics: &mut Vec<Diagnostic>,
) -> (r: Result<Buildings, Error>)
    ensures
        drawn_on(*old(rng), *final(rng)),
        match r {
            Ok(buildings) => {
                &&& failure_of(extract@, *inhabitants, config@) is None
                &&& is_populated(
                    extract@,
                    *inhabitants,
                    config@,
                    drawn_between(*old(rng), *final(rng)),
                    buildings@,
                )
                &&& final(diagnostics).deep_view() == old(diagnostics).deep_view() + problems_of(
                    extract@,
                    config@,
                )
            },
            Err(error) => {
                &&& failure_of(extract@, *inhabitants, config@) == Some(error)
                &&& final(diagnostics).deep_view() == old(diagnostics).deep_view()
                &&& final(rng).drawn() == old(rng).drawn()
            },
        },
{
    let within = ways_within(&extract.buildings, &extract.areas);
    let mut found: Vec<Diagnostic> = Vec::new();
    let mut buildings = match Buildings::from_candidates(
        &extract.buildings,
        &extract.housenumbers,
        &within,
        config,
        &mut found,
    ) {
        Ok(buildings) => buildings,
        Err(error) => {
            return Err(error);
        },
    };
    let settled = match inhabitants {
        Some(target) => buildings.distribute_population(*target, config, rng),
        None => buildings.estimate_population(rng),
    };
    match settled {
        Ok(_) => {
            assert(found.deep_view() =~= Seq::<Problem>::empty() + found.deep_view());
            diagnostics.append(&mut found);
            Ok(buildings)
        },
        Err(error) => Err(error),
    }
}

/// Gives the buildings among the elements of a map extract their flats and
/// their inhabitants: sorts the elements as [`load_extract`] does, and
/// populates the extract as [`populate_extract`] does.
///
/// What the elements give to report is added to `diagnostics`: first the
/// ways that were left out, then what the tags gave. A run that fails gives
/// out no buildings, reports nothing and draws nothing.
pub fn populate_houses(
    elements: &Vec<RawElement>,
    inhabitants: &Option<u64>,
    config: &Config,
    rng: &mut RandomSource,
    diagnostics: &mut Vec<Diagnostic>,
) -> (r: Result<Buildings, Error>)
    ensures
        drawn_on(*old(rng), *final(rng)),
        ({
            let parts = parts_of(elements.deep_view(), config@);
            match r {
                Ok(buildings) => {
                    &&& failure_of(parts, *inhabitants, config@) is None
                    &&& is_populated(
                        parts,
                        *inhabitants,
                        config@,
                        drawn_between(*old(rng), *final(rng)),
                        buildings@,
                    )
                    &&& final(diagnostics).deep_view() == old(diagnostics).deep_view()
                        + unresolved_of(elements.deep_view(), config@) + problems_of(
                        parts,
                        config@,
                    )
                },
                Err(error) => {
                    &&& failure_of(parts, *inhabitants, config@) == Some(error)
                    &&& final(diagnostics).deep_view() == old(diagnostics).deep_view()
                    &&& final(rng).drawn() == old(rng).drawn()
                },
            }
        }),
{
    let mut found: Vec<Diagnostic> = Vec::new();
    let extract = load_extract(elements, config, &mut found);
    assert(found.deep_view() =~= unresolved_of(elements.deep_view(), config@));
    let populated = populate_extract(&extract, inhabitants, config, rng, &mut found);
    match populated {
        Ok(buildings) => {
            let ghost reported = diagnostics.deep_view();
            let ghost added = found.deep_view();
            diagnostics.append(&mut found);
            assert(diagnostics.deep_view() =~= reported + added);
            Ok(buildings)
        },
        Err(error) => Err(error),
    }
}

} // verus!
