//! The calendar helpers and the generic entity store exercised directly.

use hotel_management_backend::Store;
use hotel_management_backend::get_timestamp;
use hotel_management_backend::is_peak_season;

#[test]
fn get_timestamp_packs_year_month_day() {
    assert_eq!(get_timestamp(6, 2023, 1), 20230601);
    assert_eq!(get_timestamp(8, 2023, 31), 20230831);
    assert_eq!(get_timestamp(12, 1999, 31), 19991231);
}

#[test]
fn peak_season_bounds_are_inclusive() {
    assert!(is_peak_season(20230601));
    assert!(is_peak_season(20230715));
    assert!(is_peak_season(20230831));
    assert!(!is_peak_season(20230531));
    assert!(!is_peak_season(20230901));
    assert!(!is_peak_season(0));
}

#[test]
fn store_get_put_remove_roundtrip() {
    let mut s: Store<u64> = Store::new();
    assert_eq!(s.len(), 0);
    assert_eq!(s.get(5), None);
    s.put(5, 50);
    s.put(2, 20);
    s.put(9, 90);
    assert_eq!(s.len(), 3);
    assert_eq!(s.get(5), Some(&50));
    assert_eq!(s.get(2), Some(&20));
    assert_eq!(s.get(9), Some(&90));
    assert_eq!(s.get(7), None);
    assert_eq!(s.remove(2), Some(20));
    assert_eq!(s.remove(2), None);
    assert_eq!(s.len(), 2);
    assert_eq!(s.get(2), None);
}

#[test]
fn store_put_replaces_in_place() {
    let mut s: Store<u64> = Store::new();
    s.put(4, 40);
    s.put(4, 44);
    assert_eq!(s.len(), 1);
    assert_eq!(s.get(4), Some(&44));
}

#[test]
fn store_scan_is_ordered_by_key() {
    let mut s: Store<u64> = Store::new();
    s.put(5, 50);
    s.put(1, 10);
    s.put(3, 30);
    s.put(2, 20);
    let keys: Vec<u64> = s.scan().iter().map(|e| e.0).collect();
    assert_eq!(keys, vec![1, 2, 3, 5]);
}
