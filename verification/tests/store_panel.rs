//! The control-panel state and its orb selection.

use three_body::store::{OrbOption, Store, DEFAULT_DELTA_TIME};

#[test]
fn store_new_defaults() {
    let s = Store::new();
    assert!(!s.close_window);
    assert!(s.minimize);
    assert!(s.selected_orb.is_none());
    assert_eq!(s.fixed_delta_time, DEFAULT_DELTA_TIME);
    assert_eq!(s.fixed_delta_time, 15_000);
}

#[test]
fn no_selection_reports_zero() {
    let s = Store::new();
    assert_eq!(s.get_selected_orb_number(), 0);
}

#[test]
fn each_selection_reports_its_number() {
    let mut s = Store::new();
    s.selected_orb = Some(OrbOption::Orb1);
    assert_eq!(s.get_selected_orb_number(), 1);
    s.selected_orb = Some(OrbOption::Orb2);
    assert_eq!(s.get_selected_orb_number(), 2);
    s.selected_orb = Some(OrbOption::Orb3);
    assert_eq!(s.get_selected_orb_number(), 3);
}
