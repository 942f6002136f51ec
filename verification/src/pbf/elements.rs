//! The raw elements of a map extract, and what is made of them: footprints
//! from ways, address points from nodes.

use crate::config::{Config, Settings};
use crate::error::{Diagnostic, Problem};
use crate::pbf::flats::{is_excluded, marks_exclusion};
use crate::pbf::geometry::{closed, Point, Polygon};
use crate::pbf::way::{GenericWay, HouseNumberPoint, Outline};
use crate::tags::{TagMap, Tags};
use std::collections::HashMap;
use vstd::prelude::*;

verus! {

/// A node of the map: one coordinate with tags.
#[derive(Debug)]
pub struct Node {
    /// The node's number.
    pub id: i64,
    /// The tags.
    pub tags: Tags,
    /// Latitude in ten-millionths of a degree.
    pub decimicro_lat: i32,
    /// Longitude in ten-millionths of a degree.
    pub decimicro_lon: i32,
}

/// A way of the map: a line of nodes, given by their numbers, with tags.
#[derive(Debug)]
pub struct Way {
    /// The way's number.
    pub id: i64,
    /// The tags.
    pub tags: Tags,
    /// The numbers of the nodes, in the order of the line.
    pub nodes: Vec<i64>,
}

/// A raw element of a map extract.
#[derive(Debug)]
pub enum RawElement {
    /// A node.
    Node(Node),
    /// A way.
    Way(Way),
}

/// The mathematical form of a raw element.
pub enum Element {
    /// A node with its number, tags and coordinate.
    Node { id: i64, tags: TagMap, point: Point },
    /// A way with its number, tags and the numbers of its nodes.
    Way { id: i64, tags: TagMap, nodes: Seq<i64> },
}

impl View for RawElement {
    type V = Element;

    open spec fn view(&self) -> Element {
        match self {
            RawElement::Node(node) => Element::Node {
                id: node.id,
                tags: node.tags@,
                point: Point { lon: node.decimicro_lon, lat: node.decimicro_lat },
            },
            RawElement::Way(way) => Element::Way { id: way.id, tags: way.tags@, nodes: way.nodes@ },
        }
    }
}

impl DeepView for RawElement {
    type V = Element;

    open spec fn deep_view(&self) -> Element {
        self@
    }
}

impl Clone for RawElement {
    fn clone(&self) -> (r: Self)
        ensures
            r@ == self@,
    {
        match self {
            RawElement::Node(node) => RawElement::Node(
                Node {
                    id: node.id,
                    tags: node.tags.clone(),
                    decimicro_lat: node.decimicro_lat,
                    decimicro_lon: node.decimicro_lon,
                },
            ),
            RawElement::Way(way) => {
                let mut nodes: Vec<i64> = Vec::new();
                let mut i: usize = 0;
                while i < way.nodes.len()
                    invariant
                        i <= way.nodes.len(),
                        nodes@ == way.nodes@.take(i as int),
                    decreases way.nodes.len() - i,
                {
                    nodes.push(way.nodes[i]);
                    assert(nodes@ =~= way.nodes@.take(i + 1));
                    i += 1;
                }
                assert(nodes@ =~= way.nodes@);
                RawElement::Way(Way { id: way.id, tags: way.tags.clone(), nodes })
            },
        }
    }
}

/// The tags of an element.
pub open spec fn tags_of(element: Element) -> TagMap {
    match element {
        Element::Node { tags, .. } => tags,
        Element::Way { tags, .. } => tags,
    }
}

/// Whether an element is a building: it has the key `building`.
pub open spec fn is_building_element(element: Element) -> bool {
    tags_of(element).dom().contains("building"@)
}

/// Whether an element is an address point: a node with the key
/// `addr:housenumber`.
pub open spec fn is_housenumber_element(element: Element) -> bool {
    element is Node && tags_of(element).dom().contains("addr:housenumber"@)
}

/// Whether an element is an exclusion area: a way with one of the excluded
/// keys, or with an excluded `landuse` value.
pub open spec fn is_exclusion_element(element: Element, settings: Settings) -> bool {
    element is Way && is_excluded(tags_of(element), settings)
}

impl RawElement {
    /// The tags of the element.
    pub fn tags(&self) -> (r: &Tags)
        ensures
            r@ == tags_of(self@),
    {
        match self {
            RawElement::Node(node) => &node.tags,
            RawElement::Way(way) => &way.tags,
        }
    }

    /// Whether the element is a node.
    pub fn is_node(&self) -> (r: bool)
        ensures
            r == (self@ is Node),
    {
        match self {
            RawElement::Node(_) => true,
            RawElement::Way(_) => false,
        }
    }

    /// Whether the element is a way.
    pub fn is_way(&self) -> (r: bool)
        ensures
            r == (self@ is Way),
    {
        match self {
            RawElement::Node(_) => false,
            RawElement::Way(_) => true,
        }
    }
}

/// Whether the element is a building.
pub fn is_building(obj: &RawElement) -> (r: bool)
    ensures
        r == is_building_element(obj@),
{
    (obj.is_node() || obj.is_way()) && obj.tags().contains_key("building")
}

/// Whether the element is an address point.
pub fn is_housenumber_node(obj: &RawElement) -> (r: bool)
    ensures
        r == is_housenumber_element(obj@),
{
    obj.is_node() && obj.tags().contains_key("addr:housenumber")
}

/// Whether the element is an exclusion area.
pub fn is_exclude_area(obj: &RawElement, config: &Config) -> (r: bool)
    ensures
        r == is_exclusion_element(obj@, config@),
{
    obj.is_way() && marks_exclusion(obj.tags(), config)
}

/// The three parts into which the elements of an extract fall.
#[derive(Clone, Copy, Debug, PartialEq, Eq, Structural)]
pub enum Part {
    /// The buildings.
    Buildings,
    /// The address points.
    HouseNumbers,
    /// The exclusion areas.
    ExcludeAreas,
}

/// Whether an element belongs to a part. An element can belong to several.
pub open spec fn belongs_to(element: Element, part: Part, settings: Settings) -> bool {
    match part {
        Part::Buildings => is_building_element(element),
        Part::HouseNumbers => is_housenumber_element(element),
        Part::ExcludeAreas => is_exclusion_element(element, settings),
    }
}

/// The elements of one part, in their order.
pub fn select(elements: &Vec<RawElement>, part: Part, config: &Config) -> (r: Vec<RawElement>)
    ensures
        r.deep_view() == elements.deep_view().filter(
            |element: Element| belongs_to(element, part, config@),
        ),
{
    let ghost wanted = |element: Element| belongs_to(element, part, config@);
    let mut out: Vec<RawElement> = Vec::new();
    assert(elements.deep_view().take(0).filter(wanted) =~= Seq::<Element>::empty()) by {
        reveal(Seq::filter);
    }
    let mut i: usize = 0;
    while i < elements.len()
        invariant
            i <= elements.len(),
            wanted == |element: Element| belongs_to(element, part, config@),
            out.deep_view() == elements.deep_view().take(i as int).filter(wanted),
        decreases elements.len() - i,
    {
        let belongs = match part {
            Part::Buildings => is_building(&elements[i]),
            Part::HouseNumbers => is_housenumber_node(&elements[i]),
            Part::ExcludeAreas => is_exclude_area(&elements[i], config),
        };
        let ghost so_far = out.deep_view();
        proof {
            let seen = elements.deep_view().take(i as int);
            assert(elements.deep_view().take(i + 1) =~= seen.push(elements@[i as int]@));
            seen.lemma_filter_push(elements@[i as int]@, wanted);
        }
        if belongs {
            out.push(elements[i].clone());
            assert(out.deep_view() =~= so_far.push(elements@[i as int]@));
        }
        i += 1;
    }
    assert(elements.deep_view().take(i as int) =~= elements.deep_view());
    out
}

/// The coordinates of the nodes among `elements`, by the nodes' numbers. Of
/// two nodes with one number the later counts.
pub open spec fn coordinates_of(elements: Seq<Element>) -> Map<i64, Point>
    decreases elements.len(),
{
    if elements.len() == 0 {
        Map::empty()
    } else {
        match elements.last() {
            Element::Node { id, point, .. } => coordinates_of(elements.drop_last()).insert(
                id,
                point,
            ),
            Element::Way { .. } => coordinates_of(elements.drop_last()),
        }
    }
}

/// The coordinates of the nodes among `elements`, by the nodes' numbers.
pub fn node_index(elements: &Vec<RawElement>) -> (r: HashMap<i64, Point>)
    ensures
        r@ == coordinates_of(elements.deep_view()),
{
    broadcast use vstd::std_specs::hash::group_hash_axioms;

    let mut index: HashMap<i64, Point> = HashMap::new();
    let mut i: usize = 0;
    while i < elements.len()
        invariant
            i <= elements.len(),
            index@ == coordinates_of(elements.deep_view().take(i as int)),
        decreases elements.len() - i,
    {
        proof {
            assert(elements.deep_view().take(i + 1).drop_last() =~= elements.deep_view().take(
                i as int,
            ));
        }
        match &elements[i] {
            RawElement::Node(node) => {
                index.insert(
                    node.id,
                    Point { lon: node.decimicro_lon, lat: node.decimicro_lat },
                );
            },
            RawElement::Way(_) => {},
        }
        i += 1;
    }
    assert(elements.deep_view().take(i as int) =~= elements.deep_view());
    index
}

/// The first of `nodes` of which `known` holds no coordinate, if there is one.
pub open spec fn first_unknown(nodes: Seq<i64>, known: Map<i64, Point>) -> Option<i64>
    decreases nodes.len(),
{
    if nodes.len() == 0 {
        None
    } else if !known.dom().contains(nodes[0]) {
        Some(nodes[0])
    } else {
        first_unknown(nodes.drop_first(), known)
    }
}

/// The coordinates of `nodes`, in their order.
pub open spec fn ring_of(nodes: Seq<i64>, known: Map<i64, Point>) -> Seq<Point> {
    Seq::new(nodes.len(), |i: int| known[nodes[i]])
}

/// The coordinates of `nodes` in their order, or the first node of which no
/// coordinate is known.
pub fn resolve(nodes: &Vec<i64>, known: &HashMap<i64, Point>) -> (r: Result<Vec<Point>, i64>)
    ensures
        match r {
            Ok(ring) => first_unknown(nodes@, known@) is None && ring@ == ring_of(nodes@, known@),
            Err(node) => first_unknown(nodes@, known@) == Some(node),
        },
{
    broadcast use vstd::std_specs::hash::group_hash_axioms;

    let mut ring: Vec<Point> = Vec::new();
    let mut i: usize = 0;
    assert(nodes@.skip(0) =~= nodes@);
    while i < nodes.len()
        invariant
            i <= nodes.len(),
            ring.len() == i,
            first_unknown(nodes@, known@) == first_unknown(nodes@.skip(i as int), known@),
            forall|j: int| 0 <= j < i ==> ring@[j] == known@[nodes@[j]],
        decreases nodes.len() - i,
    {
        proof {
            assert(nodes@.skip(i as int).drop_first() =~= nodes@.skip(i + 1));
        }
        match known.get(&nodes[i]) {
            Some(point) => {
                ring.push(*point);
            },
            None => {
                return Err(nodes[i]);
            },
        }
        i += 1;
    }
    assert(ring@ =~= ring_of(nodes@, known@));
    Ok(ring)
}

/// The footprint of an element: that of a way all of whose nodes are known,
/// with its ring closed.
pub open spec fn outline_of(element: Element, known: Map<i64, Point>) -> Option<Outline> {
    match element {
        Element::Way { tags, nodes, .. } => if first_unknown(nodes, known) is None {
            Some(Outline { ring: closed(ring_of(nodes, known)), tags })
        } else {
            None
        },
        Element::Node { .. } => None,
    }
}

/// What an element gives to report: a way and the first of its nodes of which
/// no coordinate is known.
pub open spec fn unresolved_in(element: Element, known: Map<i64, Point>) -> Option<Problem> {
    match element {
        Element::Way { id, nodes, .. } => match first_unknown(nodes, known) {
            Some(node) => Some(Problem::UnresolvedGeometry { way: id, node }),
            None => None,
        },
        Element::Node { .. } => None,
    }
}

/// Makes a footprint of each way among `elements`, in their order: the
/// coordinates of the way's nodes, closed to a ring, with the way's tags.
///
/// A way with a node of which `known` holds no coordinate is left out and
/// added to `diagnostics`.
pub fn load_ways(
    elements: &Vec<RawElement>,
    known: &HashMap<i64, Point>,
    diagnostics: &mut Vec<Diagnostic>,
) -> (r: Vec<GenericWay>)
    ensures
        r.deep_view() == elements.deep_view().filter_map(
            |element: Element| outline_of(element, known@),
        ),
        final(diagnostics).deep_view() == old(diagnostics).deep_view()
            + elements.deep_view().filter_map(|element: Element| unresolved_in(element, known@)),
{
    let ghost outline = |element: Element| outline_of(element, known@);
    let ghost unresolved = |element: Element| unresolved_in(element, known@);
    let ghost reported = diagnostics.deep_view();
    let mut ways: Vec<GenericWay> = Vec::new();
    assert(reported + Seq::<Problem>::empty() =~= reported);
    let mut i: usize = 0;
    while i < elements.len()
        invariant
            i <= elements.len(),
            outline == |element: Element| outline_of(element, known@),
            unresolved == |element: Element| unresolved_in(element, known@),
            ways.deep_view() == elements.deep_view().take(i as int).filter_map(outline),
            diagnostics.deep_view() == reported + elements.deep_view().take(i as int).filter_map(
                unresolved,
            ),
        decreases elements.len() - i,
    {
        let ghost found = ways.deep_view();
        let ghost noted = diagnostics.deep_view();
        proof {
            assert(elements.deep_view().take(i + 1).drop_last() =~= elements.deep_view().take(
                i as int,
            ));
        }
        match &elements[i] {
            RawElement::Way(way) => match resolve(&way.nodes, known) {
                Ok(ring) => {
                    ways.push(GenericWay { polygon: Polygon::new(ring), tags: way.tags.clone() });
                    proof {
                        let element = elements@[i as int]@;
                        assert(ways.deep_view() =~= found + seq![outline(element)->0]);
                    }
                },
                Err(node) => {
                    diagnostics.push(Diagnostic::UnresolvedGeometry { way: way.id, node });
                    proof {
                        let element = elements@[i as int]@;
                        assert(diagnostics.deep_view() =~= noted + seq![unresolved(element)->0]);
                        assert(noted + seq![unresolved(element)->0] =~= reported + (
                        elements.deep_view().take(i as int).filter_map(unresolved) + seq![
                            unresolved(element)->0,
                        ]));
                    }
                },
            },
            RawElement::Node(_) => {},
        }
        i += 1;
    }
    assert(elements.deep_view().take(i as int) =~= elements.deep_view());
    ways
}

/// The address point of an element: the coordinate and the house-number text
/// of a node with the key `addr:housenumber`.
pub open spec fn address_of(element: Element) -> Option<(Point, Seq<char>)> {
    match element {
        Element::Node { tags, point, .. } => if tags.dom().contains("addr:housenumber"@) {
            Some((point, tags["addr:housenumber"@]))
        } else {
            None
        },
        Element::Way { .. } => None,
    }
}

/// Makes an address point of each node among `elements` that has the key
/// `addr:housenumber`, in their order.
pub fn load_housenumbers(elements: &Vec<RawElement>) -> (r: Vec<HouseNumberPoint>)
    ensures
        r.deep_view() == elements.deep_view().filter_map(|element: Element| address_of(element)),
{
    let ghost address = |element: Element| address_of(element);
    let mut points: Vec<HouseNumberPoint> = Vec::new();
    let mut i: usize = 0;
    while i < elements.len()
        invariant
            i <= elements.len(),
            address == |element: Element| address_of(element),
            points.deep_view() == elements.deep_view().take(i as int).filter_map(address),
        decreases elements.len() - i,
    {
        let ghost found = points.deep_view();
        proof {
            assert(elements.deep_view().take(i + 1).drop_last() =~= elements.deep_view().take(
                i as int,
            ));
        }
        match &elements[i] {
            RawElement::Node(node) => match node.tags.get("addr:housenumber") {
                Some(text) => {
                    points.push(
                        HouseNumberPoint::new(
                            Point { lon: node.decimicro_lon, lat: node.decimicro_lat },
                            text,
                        ),
                    );
                    proof {
                        let element = elements@[i as int]@;
                        assert(points.deep_view() =~= found + seq![address(element)->0]);
                    }
                },
                None => {},
            },
            RawElement::Way(_) => {},
        }
        i += 1;
    }
    assert(elements.deep_view().take(i as int) =~= elements.deep_view());
    points
}

} // verus!
