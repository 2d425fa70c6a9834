use vstd::prelude::*;

verus! {

/// A property or part of a boundary feature that every timezone record needs.
#[derive(Debug, Clone, Copy, PartialEq, Eq, Structural)]
pub enum RequiredField {
    /// The four-number bounding box.
    BoundingBox,
    /// A polygon or multipolygon geometry.
    Geometry,
    /// The `places` property, a string.
    Places,
    /// The `time_zone` property, a string.
    TimeZone,
    /// The `zone` property, a number.
    Zone,
}

/// Failures of index construction.
#[derive(Debug, Clone, Copy, PartialEq, Eq, Structural)]
pub enum NedError {
    /// The feature at `index` lacks `field`, or holds it in an unusable form.
    MalformedInput { index: usize, field: RequiredField },
    /// A cell lists `len` candidates, more than the fixed encoding holds.
    CapacityExceeded { len: usize },
    /// A cache artifact is truncated, corrupted or not laid out cell by cell
    /// in grid order.
    DecodeFailure,
}

} // verus!
