use geo::Centroid;
use openhousepopulator::config::ConfigBuilder;
use openhousepopulator::pbf::elements::{Node, RawElement, Way};
use openhousepopulator::pbf::{Buildings, GenericGeometry, Point, Polygon};
use openhousepopulator::random::RandomSource;
use openhousepopulator::tags::Tags;
use openhousepopulator::{
    load_extract, populate_extract, populate_houses, Config, Diagnostic, Error,
};

fn tags(pairs: &[(&str, &str)]) -> Tags {
    let mut held = Tags::new();
    for (key, value) in pairs {
        held.insert(key, value);
    }
    held
}

fn node(id: i64, lon: i32, lat: i32, pairs: &[(&str, &str)]) -> RawElement {
    RawElement::Node(Node { id, tags: tags(pairs), decimicro_lat: lat, decimicro_lon: lon })
}

fn way(id: i64, nodes: &[i64], pairs: &[(&str, &str)]) -> RawElement {
    RawElement::Way(Way { id, tags: tags(pairs), nodes: nodes.to_vec() })
}

/// A square with the corner nodes `first..first + 4`, from `low` to `high` in
/// both directions, in hundred-thousandths of a degree.
fn square(elements: &mut Vec<RawElement>, first: i64, low: i32, high: i32) -> Vec<i64> {
    let (low, high) = (low * 100, high * 100);
    elements.push(node(first, low, low, &[]));
    elements.push(node(first + 1, high, low, &[]));
    elements.push(node(first + 2, high, high, &[]));
    elements.push(node(first + 3, low, high, &[]));
    vec![first, first + 1, first + 2, first + 3]
}

fn footprint(polygon: &Polygon) -> geo::Polygon {
    let ring: Vec<(f64, f64)> = polygon
        .exterior()
        .iter()
        .map(|point| (point.lon as f64 / 1e7, point.lat as f64 / 1e7))
        .collect();
    geo::Polygon::new(geo::LineString::from(ring), vec![])
}

/// The centroids of the buildings, computed on degrees.
fn centroids(buildings: &Buildings) -> Vec<Point> {
    buildings
        .iter()
        .map(|building| match &building.geometry {
            GenericGeometry::GenericPolygon(polygon) => {
                let center = footprint(polygon).centroid().unwrap();
                Point {
                    lon: (center.x() * 1e7).round() as i32,
                    lat: (center.y() * 1e7).round() as i32,
                }
            }
            GenericGeometry::GenericPoint(point) => *point,
        })
        .collect()
}

fn run(
    elements: &Vec<RawElement>,
    centroid: bool,
    inhabitants: Option<u64>,
    config: &Config,
    seed: u64,
) -> (Result<Vec<(GenericGeometry, usize, u64)>, Error>, Vec<Diagnostic>) {
    let mut diagnostics = Vec::new();
    let mut rng = RandomSource::from_seed(seed);
    let result = populate_houses(elements, &inhabitants, config, &mut rng, &mut diagnostics);
    let listed = result.map(|mut buildings| {
        if centroid {
            let centers = centroids(&buildings);
            buildings.centroid(&centers);
        }
        buildings
            .into_iter()
            .map(|building| (building.geometry, building.flats, building.pop))
            .collect()
    });
    (listed, diagnostics)
}

fn apartment_block() -> Vec<RawElement> {
    let mut elements = Vec::new();
    let corners = square(&mut elements, 1, 0, 100);
    elements.push(way(50, &corners, &[("building", "apartments")]));
    elements.push(node(60, 2_500, 2_500, &[("addr:housenumber", "1")]));
    elements.push(node(61, 7_500, 5_000, &[("addr:housenumber", "2")]));
    elements.push(node(62, 20_000, 5_000, &[("addr:housenumber", "3")]));
    elements
}

#[test]
fn apartment_block_with_two_addresses_houses_six() {
    let config = ConfigBuilder::new().housenumber_factor(3).build();
    for seed in 0..5 {
        let (result, diagnostics) = run(&apartment_block(), false, Some(6), &config, seed);
        let buildings = result.unwrap();
        assert!(diagnostics.is_empty());
        assert_eq!(buildings.len(), 1);
        assert_eq!(buildings[0].1, 6);
        assert_eq!(buildings[0].2, 6);
        match &buildings[0].0 {
            GenericGeometry::GenericPolygon(polygon) => assert_eq!(polygon.exterior().len(), 5),
            other => panic!("{:?}", other),
        }
    }
}

#[test]
fn estimate_houses_each_flat_of_the_block() {
    let config = ConfigBuilder::new().build();
    let (result, _) = run(&apartment_block(), false, None, &config, 3);
    let buildings = result.unwrap();
    assert_eq!(buildings[0].1, 6);
    assert!(buildings[0].2 >= 6 && buildings[0].2 <= 30);
}

#[test]
fn building_without_flats_is_estimated_empty() {
    let config = ConfigBuilder::new().build();
    let mut elements = Vec::new();
    let corners = square(&mut elements, 1, 0, 100);
    elements.push(way(50, &corners, &[("building", "garage")]));
    let (result, _) = run(&elements, false, None, &config, 3);
    let buildings = result.unwrap();
    assert_eq!(buildings.len(), 1);
    assert_eq!((buildings[0].1, buildings[0].2), (0, 0));
    let (result, _) = run(&elements, false, Some(3), &config, 3);
    assert_eq!(result.unwrap_err(), Error::NoCapacity);
}

#[test]
fn centroid_reduces_buildings_to_points() {
    let config = ConfigBuilder::new().build();
    let (result, _) = run(&apartment_block(), true, Some(10), &config, 1);
    let buildings = result.unwrap();
    assert_eq!(
        buildings[0].0,
        GenericGeometry::GenericPoint(Point { lon: 5_000, lat: 5_000 })
    );
    assert_eq!((buildings[0].1, buildings[0].2), (6, 10));
}

fn town() -> Vec<RawElement> {
    let mut elements = Vec::new();
    let small = square(&mut elements, 1, 10, 20);
    let large = square(&mut elements, 11, 100, 200);
    let apart = square(&mut elements, 21, 300, 310);
    let zone = square(&mut elements, 31, 0, 50);
    let yard = square(&mut elements, 41, 120, 130);
    elements.push(way(100, &small, &[("building", "house")]));
    elements.push(way(101, &large, &[("building", "house")]));
    elements.push(way(102, &apart, &[("building", "house")]));
    elements.push(way(200, &zone, &[("landuse", "industrial")]));
    elements.push(way(201, &yard, &[("landuse", "commercial")]));
    elements
}

#[test]
fn building_inside_an_area_is_excluded_and_one_around_an_area_is_kept() {
    let config = ConfigBuilder::new().build();
    let (result, _) = run(&town(), false, Some(4), &config, 1);
    let buildings = result.unwrap();
    assert_eq!(buildings.len(), 2);
    let largest = |geometry: &GenericGeometry| match geometry {
        GenericGeometry::GenericPolygon(polygon) => {
            polygon.exterior().iter().map(|point| point.lon).max().unwrap()
        }
        GenericGeometry::GenericPoint(point) => point.lon,
    };
    assert_eq!(largest(&buildings[0].0), 20_000);
    assert_eq!(largest(&buildings[1].0), 31_000);
    assert_eq!(buildings[0].2 + buildings[1].2, 4);
}

#[test]
fn excluded_building_is_not_classified() {
    let config = ConfigBuilder::new().build();
    let mut elements = town();
    elements.push(way(
        103,
        &[1, 2, 3, 4],
        &[("building", "yes"), ("building:flats", "many"), ("addr:housenumber", "x")],
    ));
    let (result, diagnostics) = run(&elements, true, Some(4), &config, 1);
    let buildings = result.unwrap();
    assert_eq!(buildings.len(), 2);
    assert_eq!(buildings[0].0, GenericGeometry::GenericPoint(Point { lon: 15_000, lat: 15_000 }));
    assert_eq!(buildings[1].0, GenericGeometry::GenericPoint(Point { lon: 30_500, lat: 30_500 }));
    assert_eq!(diagnostics, vec![Diagnostic::MalformedHouseNumber("x".to_string())]);
}

#[test]
fn excluded_buildings_take_no_inhabitants() {
    let config = ConfigBuilder::new().build();
    let mut elements = town();
    elements.push(way(202, &[21, 22, 23, 24], &[("leisure", "park")]));
    let (result, _) = run(&elements, false, Some(9), &config, 4);
    let buildings = result.unwrap();
    assert_eq!(buildings.len(), 1);
    assert_eq!(buildings[0].2, 9);
}

#[test]
fn malformed_texts_are_reported_by_the_run() {
    let config = ConfigBuilder::new().build();
    let mut elements = apartment_block();
    elements.push(node(63, 5_000, 5_000, &[("addr:housenumber", "?")]));
    elements.push(way(
        51,
        &[1, 2, 3],
        &[("building", "yes"), ("building:levels", "high"), ("addr:housenumber", "4")],
    ));
    let (result, diagnostics) = run(&elements, false, Some(2), &config, 4);
    let buildings = result.unwrap();
    assert_eq!(buildings.len(), 2);
    assert_eq!(buildings[0].1, 6);
    assert_eq!(buildings[1].1, 2);
    assert_eq!(
        diagnostics,
        vec![
            Diagnostic::MalformedHouseNumber("?".to_string()),
            Diagnostic::NonNumericLevels("high".to_string()),
        ]
    );
}

#[test]
fn failed_run_reports_nothing() {
    let config = ConfigBuilder::new().build();
    let mut elements = Vec::new();
    let corners = square(&mut elements, 1, 0, 100);
    elements.push(way(50, &corners, &[("building", "shed"), ("building:levels", "x")]));
    let (result, diagnostics) = run(&elements, false, Some(1), &config, 4);
    assert_eq!(result.unwrap_err(), Error::NoCapacity);
    assert!(diagnostics.is_empty());
    elements.push(way(
        51,
        &[1, 2, 3],
        &[("building", "yes"), ("building:flats", "99999999999999999999999")],
    ));
    let (result, diagnostics) = run(&elements, false, None, &config, 4);
    assert_eq!(result.unwrap_err(), Error::Overflow);
    assert!(diagnostics.is_empty());
}

#[test]
fn run_with_one_seed_repeats_itself() {
    let config = ConfigBuilder::new().build();
    let mut elements = apartment_block();
    elements.push(way(51, &[1, 2, 3], &[("building", "house")]));
    let (first, _) = run(&elements, false, Some(50), &config, 77);
    let (second, _) = run(&elements, false, Some(50), &config, 77);
    assert_eq!(first, second);
}

#[test]
fn building_that_touches_the_edge_of_an_area_from_within_is_excluded() {
    let config = ConfigBuilder::new().build();
    let mut elements = Vec::new();
    let zone = square(&mut elements, 1, 0, 50);
    elements.push(node(10, 2_000, 0, &[]));
    elements.push(node(11, 2_000, 1_000, &[]));
    elements.push(node(12, 0, 1_000, &[]));
    elements.push(node(13, 6_000, 1_000, &[]));
    elements.push(way(100, &[1, 10, 11, 12], &[("building", "house")]));
    elements.push(way(101, &[10, 13, 11], &[("building", "house")]));
    elements.push(way(200, &zone, &[("landuse", "industrial")]));
    let (result, _) = run(&elements, false, Some(3), &config, 1);
    let buildings = result.unwrap();
    assert_eq!(buildings.len(), 1);
    assert_eq!(buildings[0].2, 3);
    match &buildings[0].0 {
        GenericGeometry::GenericPolygon(polygon) => assert_eq!(polygon.exterior().len(), 4),
        other => panic!("{:?}", other),
    }
}

#[test]
fn building_that_is_its_own_area_is_excluded() {
    let config = ConfigBuilder::new().build();
    let mut elements = Vec::new();
    let school = square(&mut elements, 1, 0, 50);
    let house = square(&mut elements, 11, 100, 110);
    elements.push(way(100, &school, &[("building", "school"), ("amenity", "school")]));
    elements.push(way(101, &house, &[("building", "house")]));
    let (result, _) = run(&elements, false, None, &config, 1);
    let buildings = result.unwrap();
    assert_eq!(buildings.len(), 1);
    assert_eq!(buildings[0].1, 1);
}

#[test]
fn run_in_two_steps_is_the_run_in_one() {
    let config = ConfigBuilder::new().build();
    let mut elements = town();
    elements.push(way(300, &[1, 2, 999], &[("building", "yes")]));
    elements.push(way(301, &[21, 22, 23], &[("building", "yes"), ("building:levels", "?")]));
    let (together, reported) = run(&elements, false, Some(12), &config, 8);

    let mut diagnostics = Vec::new();
    let extract = load_extract(&elements, &config, &mut diagnostics);
    assert_eq!(diagnostics, vec![Diagnostic::UnresolvedGeometry { way: 300, node: 999 }]);
    let mut rng = RandomSource::from_seed(8);
    let buildings =
        populate_extract(&extract, &Some(12), &config, &mut rng, &mut diagnostics).unwrap();
    let listed: Vec<(GenericGeometry, usize, u64)> = buildings
        .into_iter()
        .map(|building| (building.geometry, building.flats, building.pop))
        .collect();
    assert_eq!(together.unwrap(), listed);
    assert_eq!(reported, diagnostics);
    assert_eq!(
        reported,
        vec![
            Diagnostic::UnresolvedGeometry { way: 300, node: 999 },
            Diagnostic::NonNumericLevels("?".to_string()),
        ]
    );
}
