use rtz_ned::error::NedError;
use rtz_ned::ids::{i16_vec_to_tomezoneids, try_tomezoneids};

#[test]
fn empty_list_is_all_sentinels() {
    assert_eq!(i16_vec_to_tomezoneids(vec![]), [-1, -1, -1, -1, -1]);
}

#[test]
fn short_list_is_padded_in_order() {
    assert_eq!(i16_vec_to_tomezoneids(vec![3, 7]), [3, 7, -1, -1, -1]);
}

#[test]
fn full_list_is_kept_whole() {
    assert_eq!(i16_vec_to_tomezoneids(vec![0, 1, 2, 3, 4]), [0, 1, 2, 3, 4]);
}

#[test]
fn checked_conversion_pads_short_lists() {
    assert_eq!(try_tomezoneids(vec![12]), Ok([12, -1, -1, -1, -1]));
    assert_eq!(try_tomezoneids(vec![1, 2, 3, 4, 5]), Ok([1, 2, 3, 4, 5]));
}

#[test]
fn checked_conversion_refuses_six_ids() {
    assert_eq!(try_tomezoneids(vec![0, 1, 2, 3, 4, 5]), Err(NedError::CapacityExceeded { len: 6 }));
}
