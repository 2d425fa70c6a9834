use std::collections::BTreeMap;

use geo::{Coord, Geometry, Intersects, Rect};
use rtz_ned::cache::{build_cache, SpatialCache};
use rtz_ned::error::NedError;

fn unit_rect(lng: i16, lat: i16) -> Rect<f64> {
    let x = lng as f64;
    let y = lat as f64;
    Rect::new(Coord { x, y }, Coord { x: x + 1.0, y: y + 1.0 })
}

fn sample_cache() -> SpatialCache {
    let zones: Vec<Geometry<f64>> = vec![
        Geometry::Polygon(Rect::new(Coord { x: -10.0, y: -10.0 }, Coord { x: 10.0, y: 10.0 }).to_polygon()),
        Geometry::Polygon(Rect::new(Coord { x: 5.0, y: 5.0 }, Coord { x: 40.0, y: 12.5 }).to_polygon()),
    ];
    let intersects = |lng: i16, lat: i16, id: usize| zones[id].intersects(&unit_rect(lng, lat));
    build_cache(zones.len(), &intersects)
}

#[test]
fn cache_round_trips_through_its_artifact() {
    let cache = sample_cache();
    let bytes = cache.encode().unwrap();
    let back = SpatialCache::decode(&bytes).unwrap();
    for lng in -180i16..180 {
        for lat in -90i16..90 {
            assert_eq!(cache.get(lng, lat), back.get(lng, lat));
        }
    }
    assert_eq!(back.get(6, 6), &vec![0, 1]);
}

#[test]
fn artifact_has_the_map_layout() {
    let cache = sample_cache();
    let mut map: BTreeMap<(i16, i16), Vec<i16>> = BTreeMap::new();
    for lng in -180i16..180 {
        for lat in -90i16..90 {
            map.insert((lng, lat), cache.get(lng, lat).clone());
        }
    }
    let expected = bincode::serde::encode_to_vec(&map, bincode::config::standard()).unwrap();
    assert_eq!(cache.encode().unwrap(), expected);
}

#[test]
fn two_sweeps_give_identical_artifacts() {
    assert_eq!(sample_cache().encode().unwrap(), sample_cache().encode().unwrap());
}

#[test]
fn truncated_artifact_is_refused() {
    let bytes = sample_cache().encode().unwrap();
    assert!(SpatialCache::decode(&bytes[..bytes.len() / 2]).err() == Some(NedError::DecodeFailure));
    assert!(SpatialCache::decode(&[]).is_err());
}

#[test]
fn cells_out_of_grid_order_are_refused() {
    let mut cells = sample_cache().to_cells();
    assert_eq!(cells.len(), 64800);
    assert_eq!(cells[0].0, (-180, -90));
    assert_eq!(cells[181].0, (-179, -89));
    cells.swap(0, 1);
    let bytes = bincode::serde::encode_to_vec(&cells, bincode::config::standard()).unwrap();
    assert_eq!(SpatialCache::decode(&bytes).err(), Some(NedError::DecodeFailure));
    cells.swap(0, 1);
    assert!(SpatialCache::from_cells(cells.clone()).is_some());
    cells.pop();
    assert!(SpatialCache::from_cells(cells).is_none());
}
