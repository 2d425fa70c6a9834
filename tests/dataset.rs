use rtz_ned::dataset::{record_from_fields, FeatureFields, TimezoneDataset};
use rtz_ned::error::{NedError, RequiredField};

fn complete(places: &str, time_zone: &str, raw_offset: i32) -> FeatureFields {
    FeatureFields {
        has_bbox: true,
        has_geometry: true,
        places: Some(places.to_string()),
        dst_places: None,
        time_zone: Some(time_zone.to_string()),
        tz_name1st: Some("Test/Zone".to_string()),
        raw_offset: Some(raw_offset),
    }
}

#[test]
fn ids_follow_input_order() {
    let features = vec![complete("a", "UTC", 0), complete("b", "UTC-08:00", -28800), complete("c", "UTC+05:30", 19800)];
    let dataset = TimezoneDataset::from_features(features).unwrap();
    assert_eq!(dataset.len(), 3);
    for (i, name) in ["a", "b", "c"].iter().enumerate() {
        let record = dataset.get(i);
        assert_eq!(record.id, i);
        assert_eq!(record.description, *name);
    }
    assert_eq!(dataset.get(1).offset, "UTC-08:00");
    assert_eq!(dataset.get(1).raw_offset, -28800);
    assert_eq!(dataset.get(2).identifier.as_deref(), Some("Test/Zone"));
    assert_eq!(dataset.records().len(), 3);
}

#[test]
fn record_keeps_optional_fields() {
    let mut f = complete("Alaska", "UTC-09:00", -32400);
    f.dst_places = Some("summer".to_string());
    f.tz_name1st = None;
    let record = record_from_fields(4, f).unwrap();
    assert_eq!(record.id, 4);
    assert_eq!(record.identifier, None);
    assert_eq!(record.dst_description.as_deref(), Some("summer"));
    assert_eq!(record.description, "Alaska");
}

#[test]
fn records_are_equal_by_id_only() {
    let a = record_from_fields(2, complete("a", "UTC", 0)).unwrap();
    let b = record_from_fields(2, complete("b", "UTC+01:00", 3600)).unwrap();
    let c = record_from_fields(3, complete("a", "UTC", 0)).unwrap();
    assert!(a == b);
    assert!(a != c);
}

#[test]
fn missing_time_zone_is_malformed() {
    let mut f = complete("a", "UTC", 0);
    f.time_zone = None;
    let features = vec![complete("ok", "UTC", 0), f];
    let r = TimezoneDataset::from_features(features);
    assert_eq!(r.err(), Some(NedError::MalformedInput { index: 1, field: RequiredField::TimeZone }));
}

#[test]
fn each_missing_part_is_named() {
    let mut f = complete("a", "UTC", 0);
    f.has_bbox = false;
    assert_eq!(record_from_fields(0, f).err(), Some(NedError::MalformedInput { index: 0, field: RequiredField::BoundingBox }));
    let mut f = complete("a", "UTC", 0);
    f.has_geometry = false;
    assert_eq!(record_from_fields(0, f).err(), Some(NedError::MalformedInput { index: 0, field: RequiredField::Geometry }));
    let mut f = complete("a", "UTC", 0);
    f.places = None;
    assert_eq!(record_from_fields(0, f).err(), Some(NedError::MalformedInput { index: 0, field: RequiredField::Places }));
    let mut f = complete("a", "UTC", 0);
    f.raw_offset = None;
    assert_eq!(record_from_fields(0, f).err(), Some(NedError::MalformedInput { index: 0, field: RequiredField::Zone }));
}

#[test]
fn first_malformed_feature_is_reported() {
    let mut first = complete("a", "UTC", 0);
    first.places = None;
    let mut second = complete("b", "UTC", 0);
    second.has_geometry = false;
    let r = TimezoneDataset::from_features(vec![complete("ok", "UTC", 0), first, second]);
    assert_eq!(r.err(), Some(NedError::MalformedInput { index: 1, field: RequiredField::Places }));
}

#[test]
fn empty_feature_list_gives_empty_dataset() {
    let dataset = TimezoneDataset::from_features(vec![]).unwrap();
    assert_eq!(dataset.len(), 0);
}
