use vstd::prelude::*;

use crate::error::{NedError, RequiredField};

verus! {

/// What the index needs of one boundary feature, read from its bounding box,
/// its geometry and its properties.
#[derive(Debug, Clone)]
pub struct FeatureFields {
    /// The feature carries a four-number bounding box.
    pub has_bbox: bool,
    /// The feature carries a polygon or multipolygon geometry that converts to
    /// the working representation.
    pub has_geometry: bool,
    /// The `places` property, when it is a string.
    pub places: Option<String>,
    /// The `dst_places` property, when it is a string.
    pub dst_places: Option<String>,
    /// The `time_zone` property, when it is a string.
    pub time_zone: Option<String>,
    /// The `tz_name1st` property, when it is a string.
    pub tz_name1st: Option<String>,
    /// The `zone` property in whole seconds, `round(zone * 3600)`, when it is
    /// a number.
    pub raw_offset: Option<i32>,
}

/// One timezone of the dataset, less its geometry and its fractional zone.
#[derive(Debug, Clone)]
pub struct TimezoneRecord {
    /// Position of the record in its dataset; unique within one build only.
    pub id: usize,
    /// The IANA identifier (e.g. `America/Los_Angeles`).
    pub identifier: Option<String>,
    /// The places that the timezone covers.
    pub description: String,
    /// Daylight saving time information.
    pub dst_description: Option<String>,
    /// The display offset (e.g. `UTC-08:00`).
    pub offset: String,
    /// The offset from UTC in seconds (e.g. `-28800`).
    pub raw_offset: i32,
}

impl PartialEq for TimezoneRecord {
    fn eq(&self, other: &TimezoneRecord) -> (r: bool) {
        self.id == other.id
    }
}

impl vstd::std_specs::cmp::PartialEqSpecImpl for TimezoneRecord {
    open spec fn obeys_eq_spec() -> bool {
        true
    }

    open spec fn eq_spec(&self, other: &TimezoneRecord) -> bool {
        self.id == other.id
    }
}

/// The first part that `f` lacks, in the order bounding box, geometry,
/// `places`, `time_zone`, `zone`; `None` when it has them all.
pub open spec fn first_missing(f: FeatureFields) -> Option<RequiredField> {
    if !f.has_bbox {
        Some(RequiredField::BoundingBox)
    } else if !f.has_geometry {
        Some(RequiredField::Geometry)
    } else if f.places is None {
        Some(RequiredField::Places)
    } else if f.time_zone is None {
        Some(RequiredField::TimeZone)
    } else if f.raw_offset is None {
        Some(RequiredField::Zone)
    } else {
        None
    }
}

/// The record with id `id` that a complete feature gives.
pub open spec fn record_of(id: usize, f: FeatureFields) -> TimezoneRecord {
    TimezoneRecord {
        id,
        identifier: f.tz_name1st,
        description: f.places->Some_0,
        dst_description: f.dst_places,
        offset: f.time_zone->Some_0,
        raw_offset: f.raw_offset->Some_0,
    }
}

/// What `record_from_fields` returns for the feature `f` at position `id`.
pub open spec fn record_result(id: usize, f: FeatureFields) -> Result<TimezoneRecord, NedError> {
    match first_missing(f) {
        Some(field) => Err(NedError::MalformedInput { index: id, field }),
        None => Ok(record_of(id, f)),
    }
}

/// Build the record of the feature at position `id`, or name the first part
/// that it lacks.
pub fn record_from_fields(id: usize, f: FeatureFields) -> (r: Result<TimezoneRecord, NedError>)
    ensures
        r == record_result(id, f),
{
    if !f.has_bbox {
        return Err(NedError::MalformedInput { index: id, field: RequiredField::BoundingBox });
    }
    if !f.has_geometry {
        return Err(NedError::MalformedInput { index: id, field: RequiredField::Geometry });
    }
    match (f.places, f.time_zone, f.raw_offset) {
        (None, _, _) => Err(NedError::MalformedInput { index: id, field: RequiredField::Places }),
        (Some(_), None, _) => Err(
            NedError::MalformedInput { index: id, field: RequiredField::TimeZone },
        ),
        (Some(_), Some(_), None) => Err(
            NedError::MalformedInput { index: id, field: RequiredField::Zone },
        ),
        (Some(places), Some(time_zone), Some(raw_offset)) => Ok(
            TimezoneRecord {
                id,
                identifier: f.tz_name1st,
                description: places,
                dst_description: f.dst_places,
                offset: time_zone,
                raw_offset,
            },
        ),
    }
}

/// Every feature of `fs` has all the parts that a record needs.
pub open spec fn all_complete(fs: Seq<FeatureFields>) -> bool {
    forall|i: int| 0 <= i < fs.len() ==> (#[trigger] first_missing(fs[i])) is None
}

/// The records that the complete features `fs` give, with ids in input order.
pub open spec fn records_of(fs: Seq<FeatureFields>) -> Seq<TimezoneRecord> {
    Seq::new(fs.len(), |i: int| record_of(i as usize, fs[i]))
}

/// The timezones of one build, in the order of the source features; immutable
/// once built.
pub struct TimezoneDataset {
    records: Vec<TimezoneRecord>,
}

impl View for TimezoneDataset {
    type V = Seq<TimezoneRecord>;

    closed spec fn view(&self) -> Seq<TimezoneRecord> {
        self.records@
    }
}

impl TimezoneDataset {
    /// Each record's id is its position.
    pub open spec fn wf(&self) -> bool {
        forall|i: int| 0 <= i < self@.len() ==> (#[trigger] self@[i]).id == i
    }

    /// Build the dataset of `features`, giving each the id of its position;
    /// fails on the first feature that lacks a required part, naming it.
    pub fn from_features(features: Vec<FeatureFields>) -> (r: Result<TimezoneDataset, NedError>)
        ensures
            r is Ok <==> all_complete(features@),
            r is Ok ==> r->Ok_0.wf() && r->Ok_0@ == records_of(features@),
            r is Err ==> exists|i: int|
                0 <= i < features@.len() && (forall|j: int|
                    0 <= j < i ==> (#[trigger] first_missing(features@[j])) is None)
                    && r == Err::<TimezoneDataset, NedError>(
                    (NedError::MalformedInput {
                        index: i as usize,
                        field: first_missing(features@[i])->Some_0,
                    }),
                ),
    {
        let ghost fs = features@;
        let mut rest = features;
        let mut records: Vec<TimezoneRecord> = Vec::new();
        let mut i: usize = 0;
        while i < rest.len()
            invariant
                fs == features@,
                rest@.len() == fs.len(),
                i <= fs.len(),
                forall|k: int| i <= k < fs.len() ==> #[trigger] rest@[k] == fs[k],
                forall|k: int| 0 <= k < i ==> (#[trigger] first_missing(fs[k])) is None,
                records@ == records_of(fs.take(i as int)),
            decreases fs.len() - i,
        {
            let mut f = FeatureFields {
                has_bbox: false,
                has_geometry: false,
                places: None,
                dst_places: None,
                time_zone: None,
                tz_name1st: None,
                raw_offset: None,
            };
            rest.set_and_swap(i, &mut f);
            assert(f == fs[i as int]);
            match record_from_fields(i, f) {
                Ok(rec) => {
                    records.push(rec);
                    assert(records@ =~= records_of(fs.take(i + 1)));
                },
                Err(e) => {
                    assert(first_missing(fs[i as int]) is Some);
                    assert(!all_complete(fs));
                    assert(e == NedError::MalformedInput {
                        index: i as int as usize,
                        field: first_missing(fs[i as int])->Some_0,
                    });
                    return Err(e);
                },
            }
            i = i + 1;
        }
        assert(fs.take(i as int) =~= fs);
        let r = TimezoneDataset { records };
        assert(r.wf());
        Ok(r)
    }

    /// Number of records.
    pub fn len(&self) -> (r: usize)
        ensures
            r == self@.len(),
    {
        self.records.len()
    }

    /// The record with id `id`.
    pub fn get(&self, id: usize) -> (r: &TimezoneRecord)
        requires
            id < self@.len(),
        ensures
            *r == self@[id as int],
    {
        &self.records[id]
    }

    /// All records, in id order.
    pub fn records(&self) -> (r: &Vec<TimezoneRecord>)
        ensures
            r@ == self@,
    {
        &self.records
    }
}

} // verus!
