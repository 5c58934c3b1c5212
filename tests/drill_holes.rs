use decorous::drill_holes::{find_hole, join_surveys, plan_intervals, rows_for_hole, unmatched, IntervalRef};

fn strings(items: &[&str]) -> Vec<String> {
    items.iter().map(|s| s.to_string()).collect()
}

#[test]
fn filter_for_a1_excludes_a10() {
    let ids = strings(&["A10", "A1", "A10", "A1", "XA1"]);
    let rows = rows_for_hole(&ids, &"A1".to_string());
    assert_eq!(rows, vec![1, 3]);
    for r in rows {
        assert_ne!(ids[r], "A10");
    }
}

#[test]
fn filter_for_unknown_hole_is_empty() {
    let ids = strings(&["A1", "A2"]);
    assert!(rows_for_hole(&ids, &"B".to_string()).is_empty());
    assert!(rows_for_hole(&Vec::new(), &"A1".to_string()).is_empty());
}

#[test]
fn find_hole_takes_first_exact_match() {
    let ids = strings(&["DH10", "DH1", "DH1"]);
    assert_eq!(find_hole(&ids, &"DH1".to_string()), Some(1));
    assert_eq!(find_hole(&ids, &"DH".to_string()), None);
}

#[test]
fn left_join_keeps_every_header() {
    let headers = strings(&["DH1", "DH2", "DH3"]);
    let surveys = strings(&["DH3", "DH1"]);
    assert_eq!(join_surveys(&headers, &surveys), vec![Some(1), None, Some(0)]);
}

#[test]
fn end_to_end_single_hole_plan() {
    let headers = strings(&["DH1"]);
    let surveys = strings(&["DH1"]);
    let assays = strings(&["DH1"]);
    let plan = plan_intervals(&headers, &surveys, &assays);
    assert_eq!(plan.intervals, vec![IntervalRef { header: 0, survey: 0, assay: 0 }]);
    assert!(plan.missing_survey.is_empty());
    assert!(plan.missing_header.is_empty());
    assert!(plan.missing_assay.is_empty());
}

#[test]
fn plan_orders_by_header_then_assay_and_reports_mismatches() {
    let headers = strings(&["B", "A", "C"]);
    let surveys = strings(&["A", "B"]);
    let assays = strings(&["A", "B", "Z", "A", "C", "B"]);
    let plan = plan_intervals(&headers, &surveys, &assays);
    assert_eq!(
        plan.intervals,
        vec![
            IntervalRef { header: 0, survey: 1, assay: 1 },
            IntervalRef { header: 0, survey: 1, assay: 5 },
            IntervalRef { header: 1, survey: 0, assay: 0 },
            IntervalRef { header: 1, survey: 0, assay: 3 },
        ]
    );
    assert_eq!(plan.missing_survey, vec![2]);
    assert_eq!(plan.missing_header, vec![2]);
    assert!(plan.missing_assay.is_empty());
}

#[test]
fn unmatched_rows_listed_in_order() {
    let ids = strings(&["A", "B", "C", "B"]);
    let keys = strings(&["A"]);
    assert_eq!(unmatched(&ids, &keys), vec![1, 2, 3]);
}

#[test]
fn header_without_assay_is_reported() {
    let headers = strings(&["A", "B", "C"]);
    let surveys = strings(&["A", "B", "C"]);
    let assays = strings(&["B"]);
    let plan = plan_intervals(&headers, &surveys, &assays);
    assert_eq!(plan.intervals, vec![IntervalRef { header: 1, survey: 1, assay: 0 }]);
    assert_eq!(plan.missing_assay, vec![0, 2]);
}
