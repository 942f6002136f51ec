//! Ways with their footprint and tags, and the address points around them.

use crate::error::{Diagnostic, Problem};
use crate::parser::grammar::{meaning_of, Single};
use crate::parser::housenumber::HouseNumberList;
use crate::pbf::geometry::{covers, lies_inside, GenericGeometry, Point, Polygon, Shape};
use crate::tags::{TagMap, Tags};
use vstd::prelude::*;

verus! {

/// A way of the map: its footprint and its tags.
#[derive(Debug)]
pub struct GenericWay {
    /// The footprint.
    pub polygon: Polygon,
    /// The tags.
    pub tags: Tags,
}

/// The mathematical form of a way: the points of its closed ring and its tags.
pub struct Outline {
    /// The points of the ring.
    pub ring: Seq<Point>,
    /// The tags.
    pub tags: TagMap,
}

impl View for GenericWay {
    type V = Outline;

    open spec fn view(&self) -> Outline {
        Outline { ring: self.polygon@, tags: self.tags@ }
    }
}

impl DeepView for GenericWay {
    type V = Outline;

    open spec fn deep_view(&self) -> Outline {
        self@
    }
}

impl Clone for GenericWay {
    fn clone(&self) -> (r: Self)
        ensures
            r@ == self@,
    {
        GenericWay { polygon: self.polygon.clone(), tags: self.tags.clone() }
    }
}

/// Whether the footprint with the ring `area` contains `shape`: a footprint
/// where it covers it, a point where the point lies inside.
pub open spec fn area_contains(area: Seq<Point>, shape: Shape) -> bool {
    match shape {
        Shape::Polygon(ring) => covers(area, ring),
        Shape::Point(point) => lies_inside(area, point),
    }
}

/// Whether one of `areas` contains `shape`.
pub open spec fn is_within_any(areas: Seq<Outline>, shape: Shape) -> bool {
    exists|k: int| 0 <= k < areas.len() && area_contains((#[trigger] areas[k]).ring, shape)
}

impl GenericWay {
    /// Whether the way's footprint contains `geometry`.
    ///
    /// It contains a footprint that has points none of which lies outside
    /// it, and a point that lies in its interior.
    pub fn contains(&self, geometry: &GenericGeometry) -> (r: bool)
        ensures
            r == area_contains(self.polygon@, geometry@),
    {
        match geometry {
            GenericGeometry::GenericPolygon(polygon) => self.polygon.covers(polygon),
            GenericGeometry::GenericPoint(point) => self.polygon.contains(point),
        }
    }
}

/// Whether one of `areas` covers `footprint`.
pub fn is_covered_by_any(areas: &Vec<GenericWay>, footprint: &Polygon) -> (r: bool)
    ensures
        r == is_within_any(areas.deep_view(), Shape::Polygon(footprint@)),
{
    let mut k: usize = 0;
    while k < areas.len()
        invariant
            k <= areas.len(),
            forall|j: int|
                0 <= j < k ==> !covers((#[trigger] areas.deep_view()[j]).ring, footprint@),
        decreases areas.len() - k,
    {
        assert(areas.deep_view()[k as int].ring == areas@[k as int].polygon@);
        if areas[k].polygon.covers(footprint) {
            assert(area_contains(areas.deep_view()[k as int].ring, Shape::Polygon(footprint@)));
            return true;
        }
        k += 1;
    }
    false
}

/// Whether one of `areas` contains `geometry`.
pub fn is_in_any(areas: &Vec<GenericWay>, geometry: &GenericGeometry) -> (r: bool)
    ensures
        r == is_within_any(areas.deep_view(), geometry@),
{
    match geometry {
        GenericGeometry::GenericPolygon(polygon) => is_covered_by_any(areas, polygon),
        GenericGeometry::GenericPoint(point) => {
            let mut k: usize = 0;
            while k < areas.len()
                invariant
                    k <= areas.len(),
                    geometry@ == Shape::Point(*point),
                    forall|j: int|
                        0 <= j < k ==> !lies_inside((#[trigger] areas.deep_view()[j]).ring, *point),
                decreases areas.len() - k,
            {
                assert(areas.deep_view()[k as int].ring == areas@[k as int].polygon@);
                if areas[k].polygon.contains(point) {
                    assert(area_contains(areas.deep_view()[k as int].ring, geometry@));
                    return true;
                }
                k += 1;
            }
            false
        },
    }
}

/// For each of `ways`, whether one of `areas` covers its footprint.
pub open spec fn footprints_within(ways: Seq<Outline>, areas: Seq<Outline>) -> Seq<bool> {
    Seq::new(ways.len(), |i: int| is_within_any(areas, Shape::Polygon(ways[i].ring)))
}

/// For each of `ways`, whether one of `areas` covers its footprint.
pub fn ways_within(ways: &Vec<GenericWay>, areas: &Vec<GenericWay>) -> (r: Vec<bool>)
    ensures
        r@ == footprints_within(ways.deep_view(), areas.deep_view()),
{
    let mut within: Vec<bool> = Vec::new();
    let mut i: usize = 0;
    while i < ways.len()
        invariant
            i <= ways.len(),
            within.len() == i,
            forall|j: int|
                0 <= j < i ==> within@[j] == is_within_any(
                    areas.deep_view(),
                    Shape::Polygon((#[trigger] ways.deep_view()[j]).ring),
                ),
        decreases ways.len() - i,
    {
        within.push(is_covered_by_any(areas, &ways[i].polygon));
        assert(ways.deep_view()[i as int].ring == ways@[i as int].polygon@);
        i += 1;
    }
    assert(within@ =~= footprints_within(ways.deep_view(), areas.deep_view()));
    within
}

/// The mathematical form of an address point: where it lies and the
/// house-number text it carries.
pub type Address = (Point, Seq<char>);

/// An address point: where it lies and the house-number text it carries.
#[derive(Debug)]
pub struct HouseNumberPoint {
    point: Point,
    text: String,
}

impl DeepView for HouseNumberPoint {
    type V = Address;

    open spec fn deep_view(&self) -> Address {
        (self.point(), self.text())
    }
}

impl HouseNumberPoint {
    /// The address point at `point` with the house-number text `text`.
    pub fn new(point: Point, text: &str) -> (r: Self)
        ensures
            r.point() == point,
            r.text() == text@,
    {
        HouseNumberPoint { point, text: text.to_owned() }
    }

    /// Where the address point lies.
    pub closed spec fn point(&self) -> Point {
        self.point
    }

    /// The house-number text of the address point.
    pub closed spec fn text(&self) -> Seq<char> {
        self.text@
    }

    /// Where the address point lies.
    pub fn location(&self) -> (r: Point)
        ensures
            r == self.point(),
    {
        self.point
    }

    /// The house-number text of the address point.
    pub fn house_number_text(&self) -> (r: &str)
        ensures
            r@ == self.text(),
    {
        self.text.as_str()
    }
}

/// The house numbers that `text` stands for; none where it is malformed.
pub open spec fn numbers_of(text: Seq<char>) -> Set<Single> {
    match meaning_of(text) {
        Ok(numbers) => numbers,
        Err(_) => Set::empty(),
    }
}

/// What `text` gives to report: itself, where it is malformed.
pub open spec fn text_problems(text: Seq<char>) -> Seq<Problem> {
    if meaning_of(text) is Err {
        seq![Problem::MalformedHouseNumber(text)]
    } else {
        Seq::empty()
    }
}

/// The house numbers of the address points at the positions `inside`. A
/// position beyond the address points stands for nothing.
pub open spec fn numbers_inside(points: Seq<Address>, inside: Seq<usize>) -> Set<Single>
    decreases inside.len(),
{
    if inside.len() == 0 {
        Set::empty()
    } else if inside.last() < points.len() {
        numbers_inside(points, inside.drop_last()).union(
            numbers_of(points[inside.last() as int].1),
        )
    } else {
        numbers_inside(points, inside.drop_last())
    }
}

/// The malformed texts of the address points at the positions `inside`, in
/// the order of the positions.
pub open spec fn problems_inside(points: Seq<Address>, inside: Seq<usize>) -> Seq<
    Problem,
>
    decreases inside.len(),
{
    if inside.len() == 0 {
        Seq::empty()
    } else if inside.last() < points.len() {
        problems_inside(points, inside.drop_last()) + text_problems(
            points[inside.last() as int].1,
        )
    } else {
        problems_inside(points, inside.drop_last())
    }
}

/// The positions, among the first `count` of `points`, of the address points
/// that lie inside the footprint with the ring `ring`, in ascending order.
pub open spec fn positions_inside(ring: Seq<Point>, points: Seq<Address>, count: int) -> Seq<
    usize,
>
    decreases count,
{
    if count <= 0 {
        Seq::empty()
    } else if lies_inside(ring, points[count - 1].0) {
        positions_inside(ring, points, count - 1).push((count - 1) as usize)
    } else {
        positions_inside(ring, points, count - 1)
    }
}

/// The house numbers of the way's own `addr:housenumber` tag.
pub open spec fn own_numbers(tags: TagMap) -> Set<Single> {
    if tags.dom().contains("addr:housenumber"@) {
        numbers_of(tags["addr:housenumber"@])
    } else {
        Set::empty()
    }
}

/// What the way's own `addr:housenumber` tag gives to report.
pub open spec fn own_problems(tags: TagMap) -> Seq<Problem> {
    if tags.dom().contains("addr:housenumber"@) {
        text_problems(tags["addr:housenumber"@])
    } else {
        Seq::empty()
    }
}

/// The house numbers of a way: those of its own tag and those of the address
/// points at the positions `inside`.
pub open spec fn house_numbers_at(
    tags: TagMap,
    points: Seq<Address>,
    inside: Seq<usize>,
) -> Set<Single> {
    own_numbers(tags).union(numbers_inside(points, inside))
}

/// What the house numbers of a way give to report: the way's own tag first,
/// then the address points at the positions `inside`.
pub open spec fn house_number_problems_at(
    tags: TagMap,
    points: Seq<Address>,
    inside: Seq<usize>,
) -> Seq<Problem> {
    own_problems(tags) + problems_inside(points, inside)
}

/// The house numbers of a way: those of its own tag and those of the address
/// points inside its footprint.
pub open spec fn house_numbers_of(way: Outline, points: Seq<Address>) -> Set<Single> {
    house_numbers_at(way.tags, points, positions_inside(way.ring, points, points.len() as int))
}

/// What the house numbers of a way give to report: the way's own tag first,
/// then the address points inside its footprint, in their order.
pub open spec fn house_number_problems(way: Outline, points: Seq<Address>) -> Seq<
    Problem,
> {
    house_number_problems_at(
        way.tags,
        points,
        positions_inside(way.ring, points, points.len() as int),
    )
}

/// Reads a house-number text; a malformed one is added to `diagnostics` and
/// stands for no house number.
pub fn read_house_numbers(text: &str, diagnostics: &mut Vec<Diagnostic>) -> (r: HouseNumberList)
    ensures
        r@ == numbers_of(text@),
        final(diagnostics).deep_view() == old(diagnostics).deep_view() + text_problems(text@),
{
    let ghost reported = diagnostics.deep_view();
    match HouseNumberList::parse(text) {
        Ok(list) => {
            assert(reported + Seq::<Problem>::empty() =~= reported);
            list
        },
        Err(_) => {
            diagnostics.push(Diagnostic::MalformedHouseNumber(text.to_owned()));
            assert(diagnostics.deep_view() =~= reported + seq![
                Problem::MalformedHouseNumber(text@),
            ]);
            HouseNumberList::new()
        },
    }
}

impl GenericWay {
    /// The positions, among `house_number_points`, of the address points
    /// that lie inside the way's footprint, in ascending order.
    pub fn points_inside(&self, house_number_points: &[HouseNumberPoint]) -> (r: Vec<usize>)
        ensures
            r@ == positions_inside(
                self.polygon@,
                house_number_points.deep_view(),
                house_number_points.len() as int,
            ),
    {
        let mut inside: Vec<usize> = Vec::new();
        let mut i: usize = 0;
        while i < house_number_points.len()
            invariant
                i <= house_number_points.len(),
                inside@ == positions_inside(self.polygon@, house_number_points.deep_view(), i as int),
            decreases house_number_points.len() - i,
        {
            if self.polygon.contains(&house_number_points[i].location()) {
                inside.push(i);
            }
            i += 1;
        }
        inside
    }

    /// The house numbers of the way: those of its own `addr:housenumber` tag
    /// and those of the address points at the positions `inside`.
    ///
    /// A position beyond the address points stands for nothing. Malformed
    /// texts are added to `diagnostics` and stand for no house number.
    pub fn house_numbers_at(
        &self,
        house_number_points: &[HouseNumberPoint],
        inside: &[usize],
        diagnostics: &mut Vec<Diagnostic>,
    ) -> (r: HouseNumberList)
        ensures
            r@ == house_numbers_at(self.tags@, house_number_points.deep_view(), inside@),
            final(diagnostics).deep_view() == old(diagnostics).deep_view()
                + house_number_problems_at(self.tags@, house_number_points.deep_view(), inside@),
    {
        let ghost reported = diagnostics.deep_view();
        let mut numbers = match self.tags.get("addr:housenumber") {
            Some(text) => read_house_numbers(text, diagnostics),
            None => {
                assert(reported + Seq::<Problem>::empty() =~= reported);
                HouseNumberList::new()
            },
        };
        let ghost own = numbers@;
        let ghost noted = diagnostics.deep_view();
        let mut i: usize = 0;
        while i < inside.len()
            invariant
                i <= inside.len(),
                numbers@ == own.union(numbers_inside(house_number_points.deep_view(), inside@.take(i as int))),
                diagnostics.deep_view() == noted + problems_inside(
                    house_number_points.deep_view(),
                    inside@.take(i as int),
                ),
            decreases inside.len() - i,
        {
            let ghost seen = inside@.take(i as int);
            let ghost next = inside@.take(i + 1);
            assert(next.drop_last() =~= seen);
            assert(next.last() == inside@[i as int]);
            let at = inside[i];
            if at < house_number_points.len() {
                let found = read_house_numbers(
                    house_number_points[at].house_number_text(),
                    diagnostics,
                );
                numbers.merge(found);
                proof {
                    let text = house_number_points.deep_view()[at as int].1;
                    assert(own.union(numbers_inside(house_number_points.deep_view(), seen)).union(
                        numbers_of(text),
                    ) =~= own.union(
                        numbers_inside(house_number_points.deep_view(), seen).union(numbers_of(text)),
                    ));
                    assert(noted + problems_inside(house_number_points.deep_view(), seen) + text_problems(
                        text,
                    ) =~= noted + (problems_inside(house_number_points.deep_view(), seen) + text_problems(
                        text,
                    )));
                }
            }
            i += 1;
        }
        assert(inside@.take(i as int) =~= inside@);
        numbers
    }

    /// The house numbers of the way: those of its own `addr:housenumber` tag
    /// and those of the address points inside its footprint.
    ///
    /// Malformed texts are added to `diagnostics` and stand for no house
    /// number.
    pub fn house_numbers(
        &self,
        house_number_points: &[HouseNumberPoint],
        diagnostics: &mut Vec<Diagnostic>,
    ) -> (r: HouseNumberList)
        ensures
            r@ == house_numbers_of(self@, house_number_points.deep_view()),
            final(diagnostics).deep_view() == old(diagnostics).deep_view() + house_number_problems(
                self@,
                house_number_points.deep_view(),
            ),
    {
        let inside = self.points_inside(house_number_points);
        self.house_numbers_at(house_number_points, inside.as_slice(), diagnostics)
    }

    /// The number of distinct house numbers of the way: those of its own tag
    /// and those of the address points inside its footprint.
    pub fn calculate_house_number_count(
        &self,
        house_number_points: &[HouseNumberPoint],
        diagnostics: &mut Vec<Diagnostic>,
    ) -> (r: usize)
        ensures
            r == house_numbers_of(self@, house_number_points.deep_view()).len(),
            house_numbers_of(self@, house_number_points.deep_view()).finite(),
            final(diagnostics).deep_view() == old(diagnostics).deep_view() + house_number_problems(
                self@,
                house_number_points.deep_view(),
            ),
    {
        self.house_numbers(house_number_points, diagnostics).count()
    }
}

} // verus!
