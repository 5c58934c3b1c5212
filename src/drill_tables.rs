use vstd::prelude::*;

use crate::drill_holes::{plan_intervals, planned_intervals, unmatched_rows, IntervalPlan};
use crate::tables::{select_columns, selected, selection_error, Table, TableError};

verus! {

/// Which of the drill-hole tables a failure belongs to.
#[derive(Clone, Copy, Debug, PartialEq, Eq, Structural)]
pub enum DrillTable {
    Header,
    Survey,
    Assay,
}

/// The columns read from the drill-hole tables, as text, and the intervals
/// their hole identifiers call for.
#[derive(Debug)]
pub struct DrillHoleColumns {
    /// hole-id, x, y, z
    pub header: Vec<Vec<String>>,
    /// hole-id, from, to, azimuth, dip
    pub survey: Vec<Vec<String>>,
    /// hole-id, from, to, au, cu
    pub assay: Vec<Vec<String>>,
    pub plan: IntervalPlan,
}

/// The views of a list of names.
pub open spec fn names_view(names: Seq<String>) -> Seq<Seq<char>> {
    names.map_values(|n: String| n@)
}

pub open spec fn header_names() -> Seq<Seq<char>> {
    seq!["hole-id"@, "x"@, "y"@, "z"@]
}

pub open spec fn survey_names() -> Seq<Seq<char>> {
    seq!["hole-id"@, "from"@, "to"@, "azimuth"@, "dip"@]
}

pub open spec fn assay_names() -> Seq<Seq<char>> {
    seq!["hole-id"@, "from"@, "to"@, "au"@, "cu"@]
}

/// The columns a header table must have.
pub fn header_columns() -> (r: Vec<String>)
    ensures
        names_view(r@) == header_names(),
{
    let r = vec![
        String::from_str("hole-id"),
        String::from_str("x"),
        String::from_str("y"),
        String::from_str("z"),
    ];
    assert(names_view(r@) =~= header_names());
    r
}

/// The columns a survey table must have.
pub fn survey_columns() -> (r: Vec<String>)
    ensures
        names_view(r@) == survey_names(),
{
    let r = vec![
        String::from_str("hole-id"),
        String::from_str("from"),
        String::from_str("to"),
        String::from_str("azimuth"),
        String::from_str("dip"),
    ];
    assert(names_view(r@) =~= survey_names());
    r
}

/// The columns an assay table must have.
pub fn assay_columns() -> (r: Vec<String>)
    ensures
        names_view(r@) == assay_names(),
{
    let r = vec![
        String::from_str("hole-id"),
        String::from_str("from"),
        String::from_str("to"),
        String::from_str("au"),
        String::from_str("cu"),
    ];
    assert(names_view(r@) =~= assay_names());
    r
}

/// Reads the required columns of the header, survey and assay tables, then
/// joins them by exact hole identifier. The first table whose columns cannot
/// be read is named in the error.
pub fn drill_hole_columns(header: &Table, survey: &Table, assay: &Table) -> (r: Result<
    DrillHoleColumns,
    (DrillTable, TableError),
>)
    ensures
        match r {
            Ok(d) => exists|hn: Seq<String>, sn: Seq<String>, an: Seq<String>|
                {
                    &&& names_view(hn) == header_names()
                    &&& names_view(sn) == survey_names()
                    &&& names_view(an) == assay_names()
                    &&& selected(*header, hn, d.header)
                    &&& selected(*survey, sn, d.survey)
                    &&& selected(*assay, an, d.assay)
                    &&& d.plan.intervals@ == planned_intervals(
                        d.header@[0]@,
                        d.survey@[0]@,
                        d.assay@[0]@,
                    )
                    &&& d.plan.missing_survey@ == unmatched_rows(d.header@[0]@, d.survey@[0]@)
                    &&& d.plan.missing_header@ == unmatched_rows(d.assay@[0]@, d.header@[0]@)
                    &&& d.plan.missing_assay@ == unmatched_rows(d.header@[0]@, d.assay@[0]@)
                },
            Err((DrillTable::Header, e)) => exists|hn: Seq<String>|
                names_view(hn) == header_names() && selection_error(*header, hn, e),
            Err((DrillTable::Survey, e)) => exists|hn: Seq<String>, hc: Vec<Vec<String>>, sn: Seq<String>|
                {
                    &&& names_view(hn) == header_names()
                    &&& selected(*header, hn, hc)
                    &&& names_view(sn) == survey_names()
                    &&& selection_error(*survey, sn, e)
                },
            Err((DrillTable::Assay, e)) => exists|
                hn: Seq<String>,
                hc: Vec<Vec<String>>,
                sn: Seq<String>,
                sc: Vec<Vec<String>>,
                an: Seq<String>,
            |
                {
                    &&& names_view(hn) == header_names()
                    &&& selected(*header, hn, hc)
                    &&& names_view(sn) == survey_names()
                    &&& selected(*survey, sn, sc)
                    &&& names_view(an) == assay_names()
                    &&& selection_error(*assay, an, e)
                },
        },
{
    let hn = header_columns();
    let sn = survey_columns();
    let an = assay_columns();
    let h = match select_columns(header, &hn) {
        Ok(c) => c,
        Err(e) => {
            return Err((DrillTable::Header, e));
        },
    };
    let s = match select_columns(survey, &sn) {
        Ok(c) => c,
        Err(e) => {
            return Err((DrillTable::Survey, e));
        },
    };
    let a = match select_columns(assay, &an) {
        Ok(c) => c,
        Err(e) => {
            return Err((DrillTable::Assay, e));
        },
    };
    assert(names_view(hn@).len() == hn@.len() && names_view(sn@).len() == sn@.len()
        && names_view(an@).len() == an@.len());
    let plan = plan_intervals(&h[0], &s[0], &a[0]);
    Ok(DrillHoleColumns { header: h, survey: s, assay: a, plan })
}

} // verus!
