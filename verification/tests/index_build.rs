use proximity_index::binary64::Binary64;
use proximity_index::index::{Measured, ProximityIndex};
use proximity_index::record::{IndexEntry, Point, Record};

fn carried(x: f64) -> Binary64 {
    Binary64 { bits: x.to_bits() }
}

fn record(coordinates: &[f64], payload: &'static str) -> Record<&'static str> {
    Record { coordinates: coordinates.iter().map(|c| carried(*c)).collect(), payload }
}

fn entry(lat: f64, lon: f64, identity: u64) -> IndexEntry {
    IndexEntry { point: Point { lat: carried(lat), lon: carried(lon) }, identity }
}

#[test]
fn point_takes_longitude_first_and_latitude_second() {
    let r = record(&[-73.5673, 45.5017], "sign");
    assert_eq!(r.point(), Some(Point { lat: carried(45.5017), lon: carried(-73.5673) }));
}

#[test]
fn point_ignores_values_after_the_second() {
    let r = record(&[-73.5673, 45.5017, 12.0, 99.0], "sign");
    assert_eq!(r.point(), Some(Point { lat: carried(45.5017), lon: carried(-73.5673) }));
}

#[test]
fn point_needs_two_coordinates() {
    assert_eq!(record(&[], "none").point(), None);
    assert_eq!(record(&[-73.5673], "one").point(), None);
}

#[test]
fn build_gives_each_indexable_record_the_entry_of_its_place() {
    let index = ProximityIndex::build(vec![
        record(&[-73.0, 45.0], "a"),
        record(&[-73.1], "b"),
        record(&[], "c"),
        record(&[-73.3, 45.3, 7.0], "d"),
    ]);
    assert_eq!(index.entries(), &vec![entry(45.0, -73.0, 0), entry(45.3, -73.3, 3)]);
}

#[test]
fn build_of_nothing_holds_no_entry() {
    let index: ProximityIndex<&'static str> = ProximityIndex::build(Vec::new());
    assert!(index.entries().is_empty());
    assert!(index.locate(&vec![0, 1, u64::MAX]).is_empty());
}

#[test]
fn build_keeps_records_at_the_same_point_apart() {
    let index = ProximityIndex::build(vec![
        record(&[-73.0, 45.0], "a"),
        record(&[-73.0, 45.0], "b"),
    ]);
    assert_eq!(index.entries(), &vec![entry(45.0, -73.0, 0), entry(45.0, -73.0, 1)]);
}

#[test]
fn record_with_one_coordinate_is_excluded_and_never_returned() {
    let index = ProximityIndex::build(vec![
        record(&[-73.5673, 45.5017], "whole"),
        record(&[-73.5673], "short"),
    ]);
    assert_eq!(index.entries().len(), 1);
    assert!(index.entries().iter().all(|e| e.identity != 1));
    assert!(index.locate(&vec![1]).is_empty());
    let radii = [0.0, 50.0, 1e9, f64::MAX, f64::INFINITY];
    for radius in radii.iter() {
        let measured = vec![Measured { identity: 1, distance: carried(0.0) }];
        let found = index.find_within_radius(&measured, carried(*radius));
        assert_eq!(found.count, 0);
        assert!(found.records.is_empty());
    }
}

#[test]
fn locate_passes_over_unknown_candidates_and_keeps_the_order() {
    let index = ProximityIndex::build(vec![
        record(&[-73.0, 45.0], "a"),
        record(&[-73.1], "b"),
        record(&[-73.2, 45.2], "c"),
    ]);
    let located = index.locate(&vec![2, 7, 0, 1, u64::MAX, 2, 3]);
    assert_eq!(located, vec![entry(45.2, -73.2, 2), entry(45.0, -73.0, 0), entry(45.2, -73.2, 2)]);
}

#[test]
fn locate_of_every_identity_gives_the_entries() {
    let index = ProximityIndex::build(vec![
        record(&[-73.0, 45.0], "a"),
        record(&[-73.1], "b"),
        record(&[-73.2, 45.2], "c"),
    ]);
    assert_eq!(&index.locate(&vec![0, 1, 2]), index.entries());
}
