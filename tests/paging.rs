use verishda::paging::{range_from, range_to_sql_offset_limit};

#[test]
fn test_range_to_offset_limit() {
    assert_eq!(range_to_sql_offset_limit(0..0, false), (0, 0));
    assert_eq!(range_to_sql_offset_limit(0..i32::MAX, false), (0, i32::MAX));

    assert_eq!(range_to_sql_offset_limit(0..i32::MAX, true), (0, i32::MAX - 1));
    assert_eq!(range_to_sql_offset_limit(0..10, true), (0, 9));
    assert_eq!(range_to_sql_offset_limit(1..10, true), (0, 8));
    assert_eq!(range_to_sql_offset_limit(2..10, true), (1, 7));
    assert_eq!(range_to_sql_offset_limit(3..10, true), (2, 6));
}

#[test]
fn offset_limit_without_reserved_slot_keeps_start() {
    assert_eq!(range_to_sql_offset_limit(5..12, false), (5, 7));
}

#[test]
fn range_from_defaults_to_whole_range() {
    assert_eq!(range_from(None, None), 0..u32::MAX);
}

#[test]
fn range_from_offset_and_limit() {
    assert_eq!(range_from(Some(10), Some(5)), 10..15);
    assert_eq!(range_from(None, Some(5)), 0..5);
    assert_eq!(range_from(Some(7), None), 7..u32::MAX);
}
