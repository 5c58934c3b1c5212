use decorous::files::{CsvFile, DxfFile, FileProperties};

#[test]
fn csv_file_names() {
    let f = CsvFile { path: "/data/site/assay.csv".to_string(), header: true, sep: b',' };
    assert_eq!(f.path(), "/data/site/assay.csv");
    assert_eq!(f.name_with_extension(), Some("assay.csv".to_string()));
    assert_eq!(f.name(), Some("assay".to_string()));
}

#[test]
fn dxf_file_names() {
    let f = DxfFile { path: "maps/pit.v2.dxf".to_string() };
    assert_eq!(f.name_with_extension(), Some("pit.v2.dxf".to_string()));
    assert_eq!(f.name(), Some("pit.v2".to_string()));
}

#[test]
fn leading_dot_name_keeps_whole_stem() {
    let f = DxfFile { path: "dir/.topo".to_string() };
    assert_eq!(f.name(), Some(".topo".to_string()));
}

#[test]
fn parent_path_has_no_name() {
    let f = DxfFile { path: "dir/..".to_string() };
    assert_eq!(f.name_with_extension(), None);
    assert_eq!(f.name(), None);
}
