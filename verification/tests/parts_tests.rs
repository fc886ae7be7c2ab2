use ods_grid::refs::{CellRange, CellSpan, ColRange, RowRange};
use ods_grid::sheet::{HeaderRegion, Visibility};
use ods_grid::spans::{check_hidden, check_overlap, remove_outlooped, SpanTracker};
use ods_grid::text::{decimal_string, push_decimal, str_eq};
use ods_grid::value::{format_duration2, Value, ValueType};

#[test]
fn decimal_numerals() {
    assert_eq!(decimal_string(0), "0");
    assert_eq!(decimal_string(7), "7");
    assert_eq!(decimal_string(10), "10");
    assert_eq!(decimal_string(4294967295), "4294967295");
    assert_eq!(decimal_string(u64::MAX), "18446744073709551615");
    let mut s = String::from("n=");
    push_decimal(&mut s, 120);
    assert_eq!(s, "n=120");
}

#[test]
fn strings_compare_by_their_characters() {
    assert!(str_eq("table:table", "table:table"));
    assert!(!str_eq("table:table", "table:table-row"));
    assert!(str_eq("", ""));
}

#[test]
fn durations_are_written_with_padded_fields() {
    assert_eq!(format_duration2(0), "PT00H00M00.000S");
    assert_eq!(format_duration2(5_400_250), "PT01H30M00.250S");
    assert_eq!(format_duration2(59_999), "PT00H00M59.999S");
    assert_eq!(format_duration2(360_000_000), "PT100H00M00.000S");
    assert_eq!(format_duration2(-61_001), "-PT00H01M01.001S");
    assert_eq!(format_duration2(i64::MIN), "-PT2562047788015H12M55.808S");
    assert_eq!(format_duration2(i64::MAX), "PT2562047788015H12M55.807S");
}

#[test]
fn value_kinds() {
    assert_eq!(Value::Empty.value_type(), ValueType::Empty);
    assert_eq!(Value::Boolean(true).value_type(), ValueType::Boolean);
    assert_eq!(Value::Number("1".to_string()).value_type(), ValueType::Number);
    assert_eq!(Value::Percentage("1".to_string()).value_type(), ValueType::Percentage);
    assert_eq!(
        Value::Currency("1".to_string(), "EUR".to_string()).value_type(),
        ValueType::Currency
    );
    assert_eq!(Value::Text("t".to_string()).value_type(), ValueType::Text);
    assert_eq!(Value::TextXml(Vec::new()).value_type(), ValueType::TextXml);
    assert_eq!(Value::TimeDuration(1).value_type(), ValueType::TimeDuration);
}

#[test]
fn range_from_origin_and_span() {
    let r = CellRange::origin_span(1, 2, CellSpan::new(3, 4));
    assert_eq!(r, CellRange::new(1, 2, 3, 5));
    assert!(r.contains(1, 2));
    assert!(r.contains(3, 5));
    assert!(!r.contains(0, 2));
    assert!(!r.contains(4, 2));
    assert!(!r.contains(1, 1));
    assert!(!r.contains(1, 6));
}

#[test]
fn range_is_passed_after_its_last_cell() {
    let r = CellRange::new(1, 1, 2, 2);
    assert!(!r.out_looped(0, 0));
    assert!(!r.out_looped(2, 2));
    assert!(r.out_looped(2, 3));
    assert!(r.out_looped(3, 0));
    // in the last row before the last column the range is still ahead
    assert!(!r.out_looped(2, 0));
}

#[test]
fn ranges_overlap_when_they_share_a_cell() {
    let a = CellRange::new(0, 2, 2, 3);
    let b = CellRange::new(1, 1, 2, 2);
    let c = CellRange::new(3, 0, 3, 9);
    assert!(a.overlaps(&b));
    assert!(b.overlaps(&a));
    assert!(!a.overlaps(&c));
    assert!(check_overlap(&vec![c, a], &b));
    assert!(!check_overlap(&vec![c], &b));
    assert!(!check_overlap(&Vec::new(), &b));
}

#[test]
fn hidden_cells_report_the_remaining_columns() {
    let spans = vec![CellRange::new(1, 1, 2, 3)];
    assert_eq!(check_hidden(&spans, 1, 1), (true, 2));
    assert_eq!(check_hidden(&spans, 2, 3), (true, 0));
    assert_eq!(check_hidden(&spans, 2, 2), (true, 1));
    assert_eq!(check_hidden(&spans, 0, 1), (false, 0));
    assert_eq!(check_hidden(&spans, 1, 4), (false, 0));
    assert_eq!(check_hidden(&Vec::new(), 1, 1), (false, 0));
}

#[test]
fn hidden_cells_take_the_first_range_that_holds_them() {
    let spans = vec![CellRange::new(0, 0, 0, 1), CellRange::new(1, 1, 1, 5), CellRange::new(1, 1, 1, 2)];
    assert_eq!(check_hidden(&spans, 1, 1), (true, 4));
}

#[test]
fn passed_ranges_are_removed_in_order() {
    let a = CellRange::new(0, 0, 1, 1);
    let b = CellRange::new(0, 3, 0, 4);
    let c = CellRange::new(1, 3, 2, 4);
    let mut spans = vec![a, b, c];
    remove_outlooped(&mut spans, 0, 4);
    assert_eq!(spans, vec![a, b, c]);
    remove_outlooped(&mut spans, 1, 0);
    assert_eq!(spans, vec![a, c]);
    remove_outlooped(&mut spans, 1, 2);
    assert_eq!(spans, vec![c]);
    remove_outlooped(&mut spans, 3, 0);
    assert_eq!(spans, Vec::new());
}

#[test]
fn header_region_answers_for_its_ends() {
    let mut h = HeaderRegion::new();
    assert!(!h.row_opens_at(0));
    assert!(!h.row_closes_at(0));
    assert!(!h.col_opens_at(0));
    assert!(!h.col_closes_at(0));
    h.rows = Some(RowRange::new(2, 4));
    h.cols = Some(ColRange::new(1, 1));
    assert!(h.row_opens_at(2));
    assert!(!h.row_opens_at(3));
    assert!(!h.row_opens_at(4));
    assert!(h.row_closes_at(4));
    assert!(!h.row_closes_at(2));
    assert!(h.col_opens_at(1));
    assert!(h.col_closes_at(1));
    assert!(!h.col_opens_at(0));
    assert!(!h.col_closes_at(2));
}

#[test]
fn visibility_names() {
    assert_eq!(Visibility::Visible.as_str(), "visible");
    assert_eq!(Visibility::Collapsed.as_str(), "collapse");
    assert_eq!(Visibility::Filtered.as_str(), "filter");
}

#[test]
fn tracker_registers_prunes_and_answers() {
    let mut tracker = SpanTracker::new();
    assert_eq!(tracker.query(0, 0), (false, 0));
    tracker.register(CellRange::new(0, 0, 1, 2));
    tracker.register(CellRange::new(0, 4, 0, 5));
    assert_eq!(tracker.query(0, 1), (true, 1));
    assert_eq!(tracker.query(0, 4), (true, 1));
    assert_eq!(tracker.query(0, 3), (false, 0));
    assert!(tracker.overlaps(&CellRange::new(1, 2, 3, 3)));
    assert!(!tracker.overlaps(&CellRange::new(1, 3, 3, 3)));
    tracker.prune(1, 0);
    assert_eq!(tracker.query(0, 4), (false, 0));
    assert_eq!(tracker.query(1, 2), (true, 0));
    tracker.prune(1, 3);
    assert_eq!(tracker.query(1, 2), (false, 0));
}
