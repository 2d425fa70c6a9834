use vstd::prelude::*;

use crate::error::NedError;

verus! {

/// Number of candidate slots kept for one grid cell.
pub const TIMEZONE_LIST_LENGTH: usize = 5;

/// A rounded integer: a grid coordinate or a timezone id.
pub type RoundInt = i16;

/// A rounded longitude and latitude.
pub type RoundLngLat = (RoundInt, RoundInt);

/// A fixed-width list of timezone ids, padded with `-1`.
pub type NedTimezoneIds = [RoundInt; 5];

/// The fixed-width form of a candidate list: its ids in order, then `-1`.
pub open spec fn padded_ids(e: Seq<i16>) -> Seq<i16> {
    Seq::new(TIMEZONE_LIST_LENGTH as nat, |i: int| if i < e.len() { e[i] } else { -1i16 })
}

fn slot(v: &Vec<i16>, i: usize) -> (r: i16)
    ensures
        r == (if i < v@.len() { v@[i as int] } else { -1i16 }),
{
    if i < v.len() {
        v[i]
    } else {
        -1
    }
}

/// Convert a candidate list of at most five ids into its fixed-width form.
pub fn i16_vec_to_tomezoneids(value: Vec<i16>) -> (r: NedTimezoneIds)
    requires
        value@.len() <= TIMEZONE_LIST_LENGTH,
    ensures
        r@ == padded_ids(value@),
{
    let r: [i16; 5] = [slot(&value, 0), slot(&value, 1), slot(&value, 2), slot(&value, 3), slot(&value, 4)];
    assert(r@ =~= padded_ids(value@));
    r
}

/// Convert a candidate list into its fixed-width form, failing when it holds
/// more ids than there are slots.
pub fn try_tomezoneids(value: Vec<i16>) -> (r: Result<NedTimezoneIds, NedError>)
    ensures
        value@.len() <= TIMEZONE_LIST_LENGTH <==> r is Ok,
        r is Ok ==> r->Ok_0@ == padded_ids(value@),
        value@.len() > TIMEZONE_LIST_LENGTH ==> r == Err::<NedTimezoneIds, NedError>(
            (NedError::CapacityExceeded { len: value@.len() as usize }),
        ),
{
    if value.len() > TIMEZONE_LIST_LENGTH {
        Err(NedError::CapacityExceeded { len: value.len() })
    } else {
        Ok(i16_vec_to_tomezoneids(value))
    }
}

} // verus!
