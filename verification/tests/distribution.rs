use openhousepopulator::config::ConfigBuilder;
use openhousepopulator::pbf::distribution::{
    draw_households, draw_occupancy, household_size, is_refused, needs_second_draw,
    HOUSEHOLD_DRAWS,
};
use openhousepopulator::pbf::{Building, Buildings, GenericGeometry, Point, Polygon};
use openhousepopulator::random::RandomSource;
use openhousepopulator::Error;

fn building(flats: usize) -> Building {
    Building { geometry: GenericGeometry::GenericPoint(Point { lon: 1, lat: 2 }), flats, pop: 0 }
}

fn buildings(flats: &[usize]) -> Buildings {
    Buildings::new(flats.iter().map(|count| building(*count)).collect())
}

fn populations(buildings: &Buildings) -> Vec<u64> {
    buildings.as_slice().iter().map(|building| building.pop).collect()
}

#[test]
fn every_inhabitant_is_housed() {
    let config = ConfigBuilder::new().build();
    for seed in 0..20 {
        for target in [0u64, 1, 7, 500] {
            let mut rng = RandomSource::from_seed(seed);
            let mut all = buildings(&[3, 0, 1, 10, 0, 2]);
            assert_eq!(all.distribute_population(target, &config, &mut rng), Ok(()));
            assert_eq!(populations(&all).iter().sum::<u64>(), target);
            assert_eq!(all.total_population(), Some(target));
            assert_eq!(all.as_slice()[1].pop, 0);
            assert_eq!(all.as_slice()[4].pop, 0);
            let flats: Vec<usize> = all.as_slice().iter().map(|b| b.flats).collect();
            assert_eq!(flats, vec![3, 0, 1, 10, 0, 2]);
        }
    }
}

#[test]
fn no_flat_at_all_is_no_capacity() {
    let config = ConfigBuilder::new().build();
    let mut rng = RandomSource::from_seed(1);
    let mut none = buildings(&[]);
    assert_eq!(none.distribute_population(5, &config, &mut rng), Err(Error::NoCapacity));
    let mut empty = buildings(&[0, 0]);
    assert_eq!(empty.distribute_population(0, &config, &mut rng), Err(Error::NoCapacity));
    assert_eq!(populations(&empty), vec![0, 0]);
}

#[test]
fn more_flats_than_the_machine_counts_is_overflow() {
    let config = ConfigBuilder::new().build();
    let mut rng = RandomSource::from_seed(1);
    let mut huge = buildings(&[usize::MAX, 1]);
    assert_eq!(huge.total_flats(), None);
    assert_eq!(huge.distribute_population(5, &config, &mut rng), Err(Error::Overflow));
}

#[test]
fn single_flat_with_zero_threshold_still_ends() {
    let config = ConfigBuilder::new().reroll_threshold(0).reroll_probability(2).build();
    for seed in 0..10 {
        let mut rng = RandomSource::from_seed(seed);
        let mut one = buildings(&[1]);
        assert_eq!(one.distribute_population(200, &config, &mut rng), Ok(()));
        assert_eq!(populations(&one), vec![200]);
    }
}

#[test]
fn rerolls_spread_inhabitants_more_evenly() {
    let strict = ConfigBuilder::new().reroll_threshold(3).reroll_probability(1000).build();
    let mut rng = RandomSource::from_seed(11);
    let occupancy = draw_occupancy(50, 200, &strict, &mut rng);
    assert_eq!(occupancy.len(), 50);
    assert_eq!(occupancy.iter().sum::<u64>(), 200);
    assert!(occupancy.iter().all(|count| *count <= 6), "{:?}", occupancy);
}

#[test]
fn empty_reroll_interval_never_refuses() {
    for probability in [0, -5] {
        let config =
            ConfigBuilder::new().reroll_threshold(0).reroll_probability(probability).build();
        assert!(!needs_second_draw(10, &config));
        let mut rng = RandomSource::from_seed(3);
        let occupancy = draw_occupancy(2, 40, &config, &mut rng);
        assert_eq!(occupancy.iter().sum::<u64>(), 40);
    }
}

#[test]
fn second_draw_is_asked_above_the_threshold_only() {
    let config = ConfigBuilder::new().reroll_threshold(90).reroll_probability(2).build();
    assert!(!needs_second_draw(0, &config));
    assert!(!needs_second_draw(90, &config));
    assert!(needs_second_draw(91, &config));
    assert!(!is_refused(0, &config));
    assert!(!is_refused(90, &config));
    assert!(is_refused(91, &config));
}

#[test]
fn occupancy_is_summed_building_by_building() {
    let mut all = buildings(&[2, 0, 3, 1]);
    all.apply_occupancy(&vec![5, 1, 0, 2, 4, 9]);
    assert_eq!(populations(&all), vec![6, 0, 6, 9]);
    all.apply_occupancy(&vec![0, 0, 1, 0, 0, 0]);
    assert_eq!(populations(&all), vec![0, 0, 1, 0]);
}

#[test]
fn household_sizes_follow_the_weights() {
    assert_eq!(household_size(0), 1);
    assert_eq!(household_size(20_737_852), 1);
    assert_eq!(household_size(20_737_853), 2);
    assert_eq!(household_size(54_048_112), 2);
    assert_eq!(household_size(54_048_113), 3);
    assert_eq!(household_size(71_709_958), 3);
    assert_eq!(household_size(71_709_959), 4);
    assert_eq!(household_size(90_621_394), 4);
    assert_eq!(household_size(90_621_395), 5);
    assert_eq!(household_size(HOUSEHOLD_DRAWS - 1), 5);
}

#[test]
fn estimate_houses_one_to_five_for_each_flat() {
    for seed in 0..20 {
        let mut rng = RandomSource::from_seed(seed);
        let mut all = buildings(&[0, 1, 40, 0, 7]);
        assert_eq!(all.estimate_population(&mut rng), Ok(()));
        for building in all.as_slice() {
            assert!(building.flats as u64 <= building.pop);
            assert!(building.pop <= 5 * building.flats as u64);
        }
    }
}

#[test]
fn estimate_draws_nothing_for_a_building_without_flats() {
    let mut used = RandomSource::from_seed(99);
    let mut fresh = RandomSource::from_seed(99);
    let mut none = buildings(&[0, 0, 0]);
    assert_eq!(none.estimate_population(&mut used), Ok(()));
    assert_eq!(populations(&none), vec![0, 0, 0]);
    assert_eq!(draw_households(0, &mut used), 0);
    for _ in 0..5 {
        assert_eq!(used.below(1_000_000), fresh.below(1_000_000));
    }
}

#[test]
fn estimate_is_repeatable_with_one_seed() {
    let mut first = buildings(&[12, 3]);
    let mut second = buildings(&[12, 3]);
    first.estimate_population(&mut RandomSource::from_seed(5)).unwrap();
    second.estimate_population(&mut RandomSource::from_seed(5)).unwrap();
    assert_eq!(populations(&first), populations(&second));
}

#[test]
fn estimate_of_too_many_flats_is_overflow() {
    let mut rng = RandomSource::from_seed(1);
    let mut huge = buildings(&[1, usize::MAX]);
    assert!(!huge.households_fit());
    assert_eq!(huge.estimate_population(&mut rng), Err(Error::Overflow));
    assert_eq!(populations(&huge), vec![0, 0]);
}

#[test]
fn estimate_averages_near_the_mean_household() {
    let mut rng = RandomSource::from_seed(2024);
    let people = draw_households(100_000, &mut rng);
    assert!(people > 255_000 && people < 271_000, "{}", people);
}

#[test]
fn drawn_numbers_stay_below_the_bound() {
    let mut rng = RandomSource::from_seed(8);
    for bound in [1u64, 2, 3, 1000] {
        for _ in 0..200 {
            assert!(rng.below(bound) < bound);
        }
    }
    let mut seen = [false; 3];
    for _ in 0..200 {
        seen[rng.below(3) as usize] = true;
    }
    assert_eq!(seen, [true, true, true]);
}

#[test]
fn centers_replace_footprints_only() {
    let square = Polygon::new(vec![
        Point { lon: 0, lat: 0 },
        Point { lon: 10, lat: 0 },
        Point { lon: 10, lat: 10 },
        Point { lon: 0, lat: 10 },
    ]);
    let mut all = Buildings::new(vec![
        Building { geometry: GenericGeometry::GenericPolygon(square.clone()), flats: 2, pop: 1 },
        building(4),
        Building { geometry: GenericGeometry::GenericPolygon(square.clone()), flats: 3, pop: 0 },
    ]);
    all.centroid(&vec![Point { lon: 5, lat: 5 }, Point { lon: 9, lat: 9 }]);
    let held = all.into_inner();
    assert_eq!(held[0].geometry, GenericGeometry::GenericPoint(Point { lon: 5, lat: 5 }));
    assert_eq!(held[0].flats, 2);
    assert_eq!(held[0].pop, 1);
    assert_eq!(held[1].geometry, GenericGeometry::GenericPoint(Point { lon: 1, lat: 2 }));
    assert_eq!(held[2].geometry, GenericGeometry::GenericPolygon(square));
}

#[test]
fn occupancy_follows_the_values_drawn() {
    let config = ConfigBuilder::new().reroll_threshold(1).reroll_probability(4).build();
    for seed in 0..10 {
        let drawn = draw_occupancy(5, 60, &config, &mut RandomSource::from_seed(seed));
        let mut again = RandomSource::from_seed(seed);
        let mut expected = vec![0u64; 5];
        let mut remaining = 60;
        while remaining > 0 {
            let flat = again.below(5) as usize;
            if expected[flat] > 1 && again.below(4) > 1 {
                continue;
            }
            expected[flat] += 1;
            remaining -= 1;
        }
        assert_eq!(drawn, expected, "seed {}", seed);
    }
}

#[test]
fn households_follow_the_values_drawn() {
    for seed in 0..10 {
        let mut all = buildings(&[2, 0, 3]);
        all.estimate_population(&mut RandomSource::from_seed(seed)).unwrap();
        let mut again = RandomSource::from_seed(seed);
        let mut size = || household_size(again.below(HOUSEHOLD_DRAWS));
        let first = size() + size();
        let third = size() + size() + size();
        assert_eq!(populations(&all), vec![first, 0, third], "seed {}", seed);
    }
}
