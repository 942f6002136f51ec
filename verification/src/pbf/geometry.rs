//! Footprints and points in the fixed-point coordinates of the map data.

use geo::coordinate_position::{CoordPos, CoordinatePosition};
use geo::Contains;
use vstd::prelude::*;

verus! {

/// A coordinate in units of one ten-millionth of a degree.
#[derive(Clone, Copy, Debug, PartialEq, Eq, Structural)]
pub struct Point {
    /// Longitude, east positive.
    pub lon: i32,
    /// Latitude, north positive.
    pub lat: i32,
}

/// Whether `ring` ends where it begins. The empty ring does.
pub open spec fn is_closed(ring: Seq<Point>) -> bool {
    ring.len() == 0 || ring[0] == ring.last()
}

/// `ring`, with its first point once more at the end where it does not end
/// there already.
pub open spec fn closed(ring: Seq<Point>) -> Seq<Point> {
    if is_closed(ring) {
        ring
    } else {
        ring.push(ring[0])
    }
}

/// How far, in either direction, a point may lie from the points of a ring
/// for the ring's interior to be searched for it: somewhat more than a
/// hundred degrees.
pub const REACH: i64 = 0x4000_0000;

/// Whether `a` and `b` lie within reach of each other.
pub open spec fn is_near(a: Point, b: Point) -> bool {
    &&& -REACH <= a.lon - b.lon <= REACH
    &&& -REACH <= a.lat - b.lat <= REACH
}

/// The longest ring whose interior is searched.
pub const LONGEST_RING: usize = 0x7fff_ffff;

/// Whether the interior of `ring` can be searched for `point`: the ring is
/// not too long, and the point lies within reach of every point of it.
pub open spec fn in_reach(ring: Seq<Point>, point: Point) -> bool {
    &&& ring.len() <= LONGEST_RING
    &&& forall|i: int| 0 <= i < ring.len() ==> is_near(#[trigger] ring[i], point)
}

/// Whether `geo` finds `point` in the interior of the polygon with the
/// exterior `ring`, on the integers of the fixed-point coordinates. A point on
/// the ring itself is not in the interior.
pub uninterp spec fn ring_contains(ring: Seq<Point>, point: Point) -> bool;

/// Whether `point` lies inside the footprint with the ring `ring`: it is
/// within reach of the ring and in the interior of the polygon.
pub open spec fn lies_inside(ring: Seq<Point>, point: Point) -> bool {
    in_reach(ring, point) && ring_contains(ring, point)
}

/// `geo`'s `Contains::contains` of a `Polygon<i64>` without holes for a
/// `Point<i64>`: whether the point lies in the polygon's interior, which `geo`
/// decides by the winding number of the ring around the point. The result is
/// a function of the coordinates alone. Within reach the differences and
/// products that `geo` forms stay inside 64 bits, and the winding number
/// inside 32.
#[verifier::external_body]
fn polygon_contains(ring: &Vec<Point>, point: &Point) -> (r: bool)
    requires
        is_closed(ring@),
        in_reach(ring@, *point),
    ensures
        r == ring_contains(ring@, *point),
{
    let exterior: Vec<(i64, i64)> = ring.iter().map(
        |corner| (i64::from(corner.lon), i64::from(corner.lat)),
    ).collect();
    let polygon = geo::Polygon::new(geo::LineString::from(exterior), Vec::new());
    polygon.contains(&geo::Point::new(i64::from(point.lon), i64::from(point.lat)))
}

/// Where a point lies with respect to a footprint.
#[derive(Clone, Copy, Debug, PartialEq, Eq, Structural)]
pub enum Position {
    /// In the interior.
    Inside,
    /// On the ring.
    OnBoundary,
    /// Neither.
    Outside,
}

/// Where `geo` finds `point` with respect to the polygon with the exterior
/// `ring`, on the integers of the fixed-point coordinates.
pub uninterp spec fn ring_position(ring: Seq<Point>, point: Point) -> Position;

/// Where `point` lies with respect to the footprint with the ring `ring`: a
/// point out of reach of the ring lies outside.
pub open spec fn position_of(ring: Seq<Point>, point: Point) -> Position {
    if in_reach(ring, point) {
        ring_position(ring, point)
    } else {
        Position::Outside
    }
}

/// Whether the footprint with the ring `area` covers the one with the ring
/// `ring`: the ring has points, and none of them lies outside the area.
pub open spec fn covers(area: Seq<Point>, ring: Seq<Point>) -> bool {
    &&& ring.len() > 0
    &&& forall|i: int| 0 <= i < ring.len() ==> position_of(area, #[trigger] ring[i]) != Position::Outside
}

/// `geo`'s `CoordinatePosition::coordinate_position` of a `Polygon<i64>`
/// without holes for a coordinate: whether the coordinate lies in the
/// polygon's interior, on its ring or outside, which `geo` decides by the
/// winding number of the ring around the coordinate. The result is a function
/// of the coordinates alone. Within reach the differences and products that
/// `geo` forms stay inside 64 bits, and the winding number inside 32.
#[verifier::external_body]
fn polygon_position(ring: &Vec<Point>, point: &Point) -> (r: Position)
    requires
        is_closed(ring@),
        in_reach(ring@, *point),
    ensures
        r == ring_position(ring@, *point),
{
    let exterior: Vec<(i64, i64)> = ring.iter().map(
        |corner| (i64::from(corner.lon), i64::from(corner.lat)),
    ).collect();
    let polygon = geo::Polygon::new(geo::LineString::from(exterior), Vec::new());
    let found = geo::Coord { x: i64::from(point.lon), y: i64::from(point.lat) };
    match polygon.coordinate_position(&found) {
        CoordPos::Inside => Position::Inside,
        CoordPos::OnBoundary => Position::OnBoundary,
        CoordPos::Outside => Position::Outside,
    }
}

/// A footprint: one closed ring of points, without holes.
#[derive(Debug, PartialEq, Eq)]
pub struct Polygon {
    exterior: Vec<Point>,
}

impl View for Polygon {
    type V = Seq<Point>;

    closed spec fn view(&self) -> Seq<Point> {
        self.exterior@
    }
}

impl Clone for Polygon {
    fn clone(&self) -> (r: Self)
        ensures
            r@ == self@,
    {
        proof {
            use_type_invariant(self);
        }
        let mut exterior: Vec<Point> = Vec::new();
        let mut i: usize = 0;
        while i < self.exterior.len()
            invariant
                i <= self.exterior.len(),
                exterior@ == self.exterior@.take(i as int),
            decreases self.exterior.len() - i,
        {
            exterior.push(self.exterior[i]);
            assert(exterior@ =~= self.exterior@.take(i + 1));
            i += 1;
        }
        assert(exterior@ =~= self.exterior@);
        Polygon { exterior }
    }
}

impl Polygon {
    #[verifier::type_invariant]
    spec fn ring_is_closed(&self) -> bool {
        is_closed(self.exterior@)
    }

    /// The footprint with the ring `exterior`, which is closed where it is open.
    pub fn new(exterior: Vec<Point>) -> (r: Self)
        ensures
            r@ == closed(exterior@),
    {
        let mut exterior = exterior;
        let n = exterior.len();
        if n > 0 {
            let first = exterior[0];
            let last = exterior[n - 1];
            if first.lon != last.lon || first.lat != last.lat {
                exterior.push(first);
            }
        }
        Polygon { exterior }
    }

    /// Whether the interior of the ring can be searched for `point`.
    pub fn reaches(&self, point: &Point) -> (r: bool)
        ensures
            r == in_reach(self@, *point),
    {
        if self.exterior.len() > LONGEST_RING {
            return false;
        }
        let mut i: usize = 0;
        while i < self.exterior.len()
            invariant
                i <= self.exterior.len(),
                forall|j: int| 0 <= j < i ==> is_near(#[trigger] self.exterior@[j], *point),
            decreases self.exterior.len() - i,
        {
            let corner = self.exterior[i];
            let east: i64 = corner.lon as i64 - point.lon as i64;
            let north: i64 = corner.lat as i64 - point.lat as i64;
            if east < -REACH || east > REACH || north < -REACH || north > REACH {
                return false;
            }
            i += 1;
        }
        true
    }

    /// Whether `point` lies inside the footprint. A point on the ring, and a
    /// point out of reach of the ring, lies outside.
    pub fn contains(&self, point: &Point) -> (r: bool)
        ensures
            r == lies_inside(self@, *point),
    {
        proof {
            use_type_invariant(self);
        }
        self.reaches(point) && polygon_contains(&self.exterior, point)
    }

    /// Where `point` lies with respect to the footprint. A point out of reach
    /// of the ring lies outside.
    pub fn position(&self, point: &Point) -> (r: Position)
        ensures
            r == position_of(self@, *point),
    {
        proof {
            use_type_invariant(self);
        }
        if self.reaches(point) {
            polygon_position(&self.exterior, point)
        } else {
            Position::Outside
        }
    }

    /// Whether the footprint covers `other`: `other` has points, and none of
    /// them lies outside this footprint.
    pub fn covers(&self, other: &Polygon) -> (r: bool)
        ensures
            r == covers(self@, other@),
    {
        if other.exterior.len() == 0 {
            return false;
        }
        let mut i: usize = 0;
        while i < other.exterior.len()
            invariant
                i <= other.exterior.len(),
                forall|j: int|
                    0 <= j < i ==> position_of(self@, #[trigger] other.exterior@[j])
                        != Position::Outside,
            decreases other.exterior.len() - i,
        {
            match self.position(&other.exterior[i]) {
                Position::Outside => {
                    return false;
                },
                _ => {},
            }
            i += 1;
        }
        true
    }

    /// The points of the ring, the first of them also at the end.
    pub fn exterior(&self) -> (r: &Vec<Point>)
        ensures
            r@ == self@,
            is_closed(r@),
    {
        proof {
            use_type_invariant(self);
        }
        &self.exterior
    }
}

/// The mathematical form of a shape.
pub enum Shape {
    /// A footprint, by the points of its closed ring.
    Polygon(Seq<Point>),
    /// One point.
    Point(Point),
}

/// The shape of a building: its footprint or, once reduced, one point.
#[derive(Debug, PartialEq)]
pub enum GenericGeometry {
    /// The footprint.
    GenericPolygon(Polygon),
    /// One point that stands for the building.
    GenericPoint(Point),
}

impl View for GenericGeometry {
    type V = Shape;

    open spec fn view(&self) -> Shape {
        match self {
            GenericGeometry::GenericPolygon(polygon) => Shape::Polygon(polygon@),
            GenericGeometry::GenericPoint(point) => Shape::Point(*point),
        }
    }
}

impl Clone for GenericGeometry {
    fn clone(&self) -> (r: Self)
        ensures
            r@ == self@,
    {
        match self {
            GenericGeometry::GenericPolygon(polygon) => GenericGeometry::GenericPolygon(
                polygon.clone(),
            ),
            GenericGeometry::GenericPoint(point) => GenericGeometry::GenericPoint(*point),
        }
    }
}

} // verus!
