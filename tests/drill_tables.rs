use decorous::drill_holes::IntervalRef;
use decorous::drill_tables::{drill_hole_columns, DrillTable};
use decorous::tables::{read_table, TableError};

#[test]
fn end_to_end_tables_to_intervals() {
    let header = read_table(b"HOLE-ID,X,Y,Z\nDH1,100,200,50\n", true, b',').unwrap();
    let survey = read_table(b"hole-id,from,to,azimuth,dip\nDH1,0,10,0,-90\n", true, b',').unwrap();
    let assay = read_table(b"hole-id,from,to,au,cu\nDH1,0,10,1.0,0.5\n", true, b',').unwrap();
    let d = drill_hole_columns(&header, &survey, &assay).unwrap();
    assert_eq!(d.header[1], vec!["100".to_string()]);
    assert_eq!(d.header[2], vec!["200".to_string()]);
    assert_eq!(d.header[3], vec!["50".to_string()]);
    assert_eq!(d.survey[3], vec!["0".to_string()]);
    assert_eq!(d.survey[4], vec!["-90".to_string()]);
    assert_eq!(d.assay[3], vec!["1.0".to_string()]);
    assert_eq!(d.plan.intervals, vec![IntervalRef { header: 0, survey: 0, assay: 0 }]);
    assert!(d.plan.missing_survey.is_empty());
}

#[test]
fn survey_without_dip_is_named() {
    let header = read_table(b"hole-id,x,y,z\nDH1,1,2,3\n", true, b',').unwrap();
    let survey = read_table(b"hole-id,from,to,azimuth\nDH1,0,10,0\n", true, b',').unwrap();
    let assay = read_table(b"hole-id,from,to,au,cu\nDH1,0,10,1.0,0.5\n", true, b',').unwrap();
    let e = drill_hole_columns(&header, &survey, &assay).unwrap_err();
    assert_eq!(e, (DrillTable::Survey, TableError::MissingColumn(4)));
}
