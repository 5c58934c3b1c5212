use vstd::prelude::*;

use crate::drill_holes::{find_hole, first_match};

verus! {

/// The records, as fields of text, that the csv crate reads from `text` with
/// `sep` as delimiter and no row set apart as header; `None` where it reports
/// an error.
pub uninterp spec fn csv_records_of(text: Seq<u8>, sep: u8) -> Option<Seq<Seq<Seq<char>>>>;

/// The lowercase form of a string, as `str::to_lowercase` gives it.
pub uninterp spec fn lower_of(s: Seq<char>) -> Seq<char>;

#[verifier::external_type_specification]
#[verifier::external_body]
pub struct ExCsvError(csv::Error);

/// The characters of each field of each record.
pub open spec fn records_view(records: Seq<Vec<String>>) -> Seq<Seq<Seq<char>>> {
    records.map_values(|rec: Vec<String>| rec@.map_values(|f: String| f@))
}

/// Relies on `csv::Reader::records` (no header row, the given delimiter, not
/// flexible): the records of the text, which all have as many fields as the
/// first one, or an error.
#[verifier::external_body]
fn csv_records(text: &[u8], sep: u8) -> (r: Result<Vec<Vec<String>>, csv::Error>)
    ensures
        r is Err <==> csv_records_of(text@, sep) is None,
        r matches Ok(records) ==> {
            &&& csv_records_of(text@, sep) == Some(records_view(records@))
            &&& forall|i: int| 0 <= i < records.len() ==> #[trigger] records@[i].len() == records@[0].len()
        },
{
    let mut reader = csv::ReaderBuilder::new().has_headers(false).delimiter(sep).from_reader(text);
    let records: Result<Vec<csv::StringRecord>, csv::Error> = reader.records().collect();
    records.map(
        |recs| recs.iter().map(|rec| rec.iter().map(String::from).collect()).collect(),
    )
}

/// Relies on `str::to_lowercase`: the lowercase form of the string.
#[verifier::external_body]
fn lowercase(s: &str) -> (r: String)
    ensures
        r@ == lower_of(s@),
{
    s.to_lowercase()
}

/// Why a table cannot be used.
#[derive(Clone, Copy, Debug, PartialEq, Eq, Structural)]
pub enum TableError {
    /// The text is not well-formed delimited text.
    Unreadable,
    /// A header row was expected but the text holds no record.
    MissingHeaderRow,
    /// The required column at this position of the request is absent.
    MissingColumn(usize),
    /// This data row has too few fields for a requested column.
    ShortRow(usize),
}

/// A table: the lowercase column names (empty where the text has no header
/// row) and the data rows.
#[derive(Debug)]
pub struct Table {
    pub names: Vec<String>,
    pub rows: Vec<Vec<String>>,
}

/// The view of a table: its column names and its rows.
pub open spec fn table_view(t: Table) -> (Seq<Seq<char>>, Seq<Seq<Seq<char>>>) {
    (t.names@.map_values(|n: String| n@), records_view(t.rows@))
}

/// The table owed for `records`: with a header row, the lowercase names of the
/// first record's fields and the records after it; else no names and every record.
pub open spec fn table_of(records: Seq<Seq<Seq<char>>>, has_header: bool) -> Result<
    (Seq<Seq<char>>, Seq<Seq<Seq<char>>>),
    TableError,
> {
    if !has_header {
        Ok((seq![], records))
    } else if records.len() == 0 {
        Err(TableError::MissingHeaderRow)
    } else {
        Ok((records[0].map_values(|f: Seq<char>| lower_of(f)), records.subrange(1, records.len() as int)))
    }
}

/// The view of a table result.
pub open spec fn table_result_view(r: Result<Table, TableError>) -> Result<
    (Seq<Seq<char>>, Seq<Seq<Seq<char>>>),
    TableError,
> {
    match r {
        Ok(t) => Ok(table_view(t)),
        Err(e) => Err(e),
    }
}

/// Builds a table from its records, the first of which names the columns
/// where `has_header` holds. Column names are compared without regard to case.
pub fn table_from_records(records: Vec<Vec<String>>, has_header: bool) -> (r: Result<Table, TableError>)
    ensures
        table_result_view(r) == table_of(records_view(records@), has_header),
{
    if !has_header {
        let t = Table { names: Vec::new(), rows: records };
        assert(t.names@.map_values(|n: String| n@) =~= seq![]);
        return Ok(t);
    }
    if records.len() == 0 {
        return Err(TableError::MissingHeaderRow);
    }
    let ghost all = records@;
    let mut rows = records;
    let first = rows.remove(0);
    let mut names: Vec<String> = Vec::new();
    let mut i: usize = 0;
    while i < first.len()
        invariant
            i <= first.len(),
            names.len() == i,
            forall|k: int| 0 <= k < i ==> names@[k]@ == lower_of(first@[k]@),
        decreases first.len() - i,
    {
        names.push(lowercase(first[i].as_str()));
        i = i + 1;
    }
    let t = Table { names, rows };
    assert(all[0] == first);
    assert(t.names@.map_values(|n: String| n@) =~= records_view(all)[0].map_values(
        |f: Seq<char>| lower_of(f),
    ));
    assert(records_view(t.rows@) =~= records_view(all).subrange(1, all.len() as int));
    Ok(t)
}

/// Reads a delimited text table whose first row names the columns where
/// `has_header` holds.
pub fn read_table(text: &[u8], has_header: bool, sep: u8) -> (r: Result<Table, TableError>)
    ensures
        table_result_view(r) == match csv_records_of(text@, sep) {
            Some(records) => table_of(records, has_header),
            None => Err(TableError::Unreadable),
        },
{
    match csv_records(text, sep) {
        Ok(records) => table_from_records(records, has_header),
        Err(_) => Err(TableError::Unreadable),
    }
}

/// The column that answers to `wanted`, asked for at `position` of a request:
/// with a header row, the first column of that (lowercase) name; without one,
/// the column at `position`.
pub open spec fn column_of(names: Seq<String>, wanted: Seq<char>, position: usize) -> Option<usize> {
    if names.len() == 0 {
        Some(position)
    } else {
        first_match(names, wanted)
    }
}

/// Finds the columns that a reader needs, given by lowercase name in the order
/// they stand in a table without header row.
pub fn locate_columns(t: &Table, required: &Vec<String>) -> (r: Result<Vec<usize>, TableError>)
    ensures
        match r {
            Ok(cols) => cols.len() == required.len() && forall|k: int|
                0 <= k < required.len() ==> Some(#[trigger] cols@[k]) == column_of(
                    t.names@,
                    required@[k]@,
                    k as usize,
                ),
            Err(e) => exists|k: int|
                0 <= k < required.len() && e == TableError::MissingColumn(k as usize)
                    && column_of(t.names@, required@[k]@, k as usize) is None && forall|j: int|
                    0 <= j < k ==> (#[trigger] column_of(t.names@, required@[j]@, j as usize)) is Some,
        },
{
    let mut cols: Vec<usize> = Vec::new();
    let mut k: usize = 0;
    while k < required.len()
        invariant
            k <= required.len(),
            cols.len() == k,
            forall|j: int|
                0 <= j < k ==> Some(#[trigger] cols@[j]) == column_of(
                    t.names@,
                    required@[j]@,
                    j as usize,
                ),
        decreases required.len() - k,
    {
        let found = if t.names.len() == 0 {
            Some(k)
        } else {
            find_hole(&t.names, &required[k])
        };
        match found {
            Some(c) => cols.push(c),
            None => {
                assert forall|j: int| 0 <= j < k implies (#[trigger] column_of(
                    t.names@,
                    required@[j]@,
                    j as usize,
                )) is Some by {
                    assert(Some(cols@[j]) == column_of(t.names@, required@[j]@, j as usize));
                }
                return Err(TableError::MissingColumn(k));
            },
        }
        k = k + 1;
    }
    Ok(cols)
}

/// The field in column `col` of every data row.
pub fn column_values(t: &Table, col: usize) -> (r: Result<Vec<String>, TableError>)
    ensures
        match r {
            Ok(values) => {
                &&& values.len() == t.rows.len()
                &&& forall|i: int| 0 <= i < t.rows.len() ==> col < (#[trigger] t.rows@[i]).len()
                &&& forall|i: int|
                    0 <= i < t.rows.len() ==> (#[trigger] values@[i])@ == t.rows@[i]@[col as int]@
            },
            Err(e) => exists|i: int|
                0 <= i < t.rows.len() && e == TableError::ShortRow(i as usize) && t.rows@[i].len()
                    <= col && forall|j: int| 0 <= j < i ==> col < (#[trigger] t.rows@[j]).len(),
        },
{
    let mut values: Vec<String> = Vec::new();
    let mut i: usize = 0;
    while i < t.rows.len()
        invariant
            i <= t.rows.len(),
            values.len() == i,
            forall|j: int| 0 <= j < i ==> col < (#[trigger] t.rows@[j]).len(),
            forall|j: int| 0 <= j < i ==> (#[trigger] values@[j])@ == t.rows@[j]@[col as int]@,
        decreases t.rows.len() - i,
    {
        if col >= t.rows[i].len() {
            return Err(TableError::ShortRow(i));
        }
        let field = t.rows[i][col].clone();
        assert(field@ == t.rows@[i as int]@[col as int]@);
        values.push(field);
        assert(values@[i as int] == field);
        i = i + 1;
    }
    Ok(values)
}


/// Every required column answers to a column of the table.
pub open spec fn all_located(t: Table, required: Seq<String>) -> bool {
    forall|k: int| 0 <= k < required.len() ==> (#[trigger] column_of(t.names@, required[k]@, k as usize)) is Some
}

/// `values` holds, row by row, the field in column `c` of the table.
pub open spec fn is_column(t: Table, c: usize, values: Vec<String>) -> bool {
    &&& values.len() == t.rows.len()
    &&& forall|i: int| 0 <= i < t.rows.len() ==> c < (#[trigger] t.rows@[i]).len()
    &&& forall|i: int| 0 <= i < t.rows.len() ==> (#[trigger] values@[i])@ == t.rows@[i]@[c as int]@
}

/// `cols` holds, in the order asked, the fields of every required column.
pub open spec fn selected(t: Table, required: Seq<String>, cols: Vec<Vec<String>>) -> bool {
    &&& all_located(t, required)
    &&& cols.len() == required.len()
    &&& forall|k: int|
        0 <= k < required.len() ==> is_column(
            t,
            column_of(t.names@, required[k]@, k as usize).unwrap(),
            #[trigger] cols@[k],
        )
}

/// `e` is the error owed when the required columns cannot all be read: the
/// first column that is absent, or else a row too short for one of them.
pub open spec fn selection_error(t: Table, required: Seq<String>, e: TableError) -> bool {
    match e {
        TableError::MissingColumn(k) => {
            &&& k < required.len()
            &&& column_of(t.names@, required[k as int]@, k) is None
            &&& forall|j: int| 0 <= j < k ==> (#[trigger] column_of(t.names@, required[j]@, j as usize)) is Some
        },
        TableError::ShortRow(i) => {
            &&& all_located(t, required)
            &&& i < t.rows.len()
            &&& exists|k: int|
                0 <= k < required.len() && t.rows@[i as int].len() <= #[trigger] column_of(
                    t.names@,
                    required[k]@,
                    k as usize,
                ).unwrap()
        },
        _ => false,
    }
}

/// The fields of the required columns, one vector per column in the order asked.
pub fn select_columns(t: &Table, required: &Vec<String>) -> (r: Result<Vec<Vec<String>>, TableError>)
    ensures
        match r {
            Ok(cols) => selected(*t, required@, cols),
            Err(e) => selection_error(*t, required@, e),
        },
{
    let cols = match locate_columns(t, required) {
        Ok(cols) => cols,
        Err(e) => {
            return Err(e);
        },
    };
    assert(all_located(*t, required@)) by {
        assert forall|k: int| 0 <= k < required.len() implies (#[trigger] column_of(t.names@, required@[k]@, k as usize)) is Some by {
            assert(Some(cols@[k]) == column_of(t.names@, required@[k]@, k as usize));
        }
    }
    let mut out: Vec<Vec<String>> = Vec::new();
    let mut k: usize = 0;
    while k < cols.len()
        invariant
            k <= cols.len(),
            cols.len() == required.len(),
            out.len() == k,
            all_located(*t, required@),
            forall|j: int|
                0 <= j < required.len() ==> Some(#[trigger] cols@[j]) == column_of(
                    t.names@,
                    required@[j]@,
                    j as usize,
                ),
            forall|j: int| 0 <= j < k ==> is_column(*t, cols@[j], #[trigger] out@[j]),
        decreases cols.len() - k,
    {
        match column_values(t, cols[k]) {
            Ok(values) => {
                out.push(values);
            },
            Err(e) => {
                assert(Some(cols@[k as int]) == column_of(t.names@, required@[k as int]@, k));
                let ghost i = choose|i: int|
                    0 <= i < t.rows.len() && e == TableError::ShortRow(i as usize)
                        && t.rows@[i].len() <= cols@[k as int];
                assert(t.rows@[i].len() <= column_of(t.names@, required@[k as int]@, k).unwrap());
                return Err(e);
            },
        }
        k = k + 1;
    }
    assert forall|j: int| 0 <= j < required.len() implies is_column(
        *t,
        column_of(t.names@, required@[j]@, j as usize).unwrap(),
        #[trigger] out@[j],
    ) by {
        assert(Some(cols@[j]) == column_of(t.names@, required@[j]@, j as usize));
    }
    Ok(out)
}

} // verus!
