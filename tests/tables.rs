use decorous::tables::{
    column_values, locate_columns, read_table, select_columns, table_from_records, TableError,
};

fn strings(items: &[&str]) -> Vec<String> {
    items.iter().map(|s| s.to_string()).collect()
}

#[test]
fn header_names_are_lowercased() {
    let t = read_table(b"HOLE-ID,X,Y,Z\nDH1,100,200,50\n", true, b',').unwrap();
    assert_eq!(t.names, strings(&["hole-id", "x", "y", "z"]));
    assert_eq!(t.rows, vec![strings(&["DH1", "100", "200", "50"])]);
}

#[test]
fn columns_found_by_name_in_any_order() {
    let t = read_table(b"Z,Hole-Id,y,X\n50,DH1,200,100\n", true, b',').unwrap();
    let cols = locate_columns(&t, &strings(&["hole-id", "x", "y", "z"])).unwrap();
    assert_eq!(cols, vec![1, 3, 2, 0]);
    assert_eq!(column_values(&t, cols[0]).unwrap(), strings(&["DH1"]));
}

#[test]
fn missing_column_is_reported_by_position() {
    let t = read_table(b"hole-id,x,z\nDH1,1,2\n", true, b',').unwrap();
    let r = locate_columns(&t, &strings(&["hole-id", "x", "y", "z"]));
    assert_eq!(r.unwrap_err(), TableError::MissingColumn(2));
}

#[test]
fn without_header_columns_are_positional() {
    let t = read_table(b"1;2;3\n4;5;6\n", false, b';').unwrap();
    assert!(t.names.is_empty());
    let cols = locate_columns(&t, &strings(&["x", "y", "z"])).unwrap();
    assert_eq!(cols, vec![0, 1, 2]);
    assert_eq!(column_values(&t, 2).unwrap(), strings(&["3", "6"]));
}

#[test]
fn short_row_is_reported() {
    let t = read_table(b"1,2\n3,4\n", false, b',').unwrap();
    assert_eq!(column_values(&t, 2).unwrap_err(), TableError::ShortRow(0));
}

#[test]
fn ragged_text_is_unreadable() {
    let r = read_table(b"a,b,c\n1,2\n", true, b',');
    assert_eq!(r.err(), Some(TableError::Unreadable));
}

#[test]
fn header_row_required_when_announced() {
    let r = read_table(b"", true, b',');
    assert_eq!(r.err(), Some(TableError::MissingHeaderRow));
    let t = read_table(b"", false, b',').unwrap();
    assert!(t.rows.is_empty());
}

#[test]
fn records_split_into_header_and_rows() {
    let records = vec![strings(&["AU", "Cu"]), strings(&["1.0", "0.5"])];
    let t = table_from_records(records, true).unwrap();
    assert_eq!(t.names, strings(&["au", "cu"]));
    assert_eq!(t.rows, vec![strings(&["1.0", "0.5"])]);
}

#[test]
fn select_columns_reads_fields_in_request_order() {
    let t = read_table(b"Y,x\n2,1\n4,3\n", true, b',').unwrap();
    let cols = select_columns(&t, &strings(&["x", "y"])).unwrap();
    assert_eq!(cols, vec![strings(&["1", "3"]), strings(&["2", "4"])]);
    let missing = select_columns(&t, &strings(&["x", "z"]));
    assert_eq!(missing.unwrap_err(), TableError::MissingColumn(1));
}

#[test]
fn without_header_first_record_is_data() {
    let ok = read_table(b"a,b\n1,2\n", false, b',').unwrap();
    assert_eq!(ok.rows, vec![strings(&["a", "b"]), strings(&["1", "2"])]);
}
