use display_scale::dpi::is_table_value;
use display_scale::select::select_one_based;

#[test]
fn selection_accepts_exactly_one_through_count() {
    assert_eq!(select_one_based(0, 3), None);
    assert_eq!(select_one_based(1, 3), Some(0));
    assert_eq!(select_one_based(2, 3), Some(1));
    assert_eq!(select_one_based(3, 3), Some(2));
    assert_eq!(select_one_based(4, 3), None);
}

#[test]
fn selection_on_no_options_rejects_everything() {
    assert_eq!(select_one_based(0, 0), None);
    assert_eq!(select_one_based(1, 0), None);
}

#[test]
fn table_membership_matches_the_table() {
    assert!(is_table_value(100));
    assert!(is_table_value(300));
    assert!(is_table_value(500));
    assert!(!is_table_value(99));
    assert!(!is_table_value(130));
    assert!(!is_table_value(550));
    assert!(!is_table_value(0));
}
