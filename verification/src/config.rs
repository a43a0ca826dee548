//! The configuration source: comma-separated text whose first row names the
//! columns and whose other rows each give one status record.

use vstd::prelude::*;
use crate::table::{RecordView, StatusRecord};

verus! {

/// The two columns that every row must supply.
#[derive(Debug, Clone, Copy, PartialEq, Eq)]
pub enum Column {
    Name,
    Description,
}

/// Why a row gives no record.
#[derive(Debug, Clone, Copy, PartialEq, Eq)]
pub enum RowFault {
    /// The header names this column a second time.
    Repeated(Column),
    /// The row ends before the header does.
    Truncated,
    /// The header does not name this column.
    Absent(Column),
}

/// The first row that gives no record. Rows count from the header, which is
/// row 0, so the first record's row is row 1.
#[derive(Debug, Clone, Copy, PartialEq, Eq)]
pub struct RowError {
    pub row: usize,
    pub fault: RowFault,
}

/// Why a configuration text gives no records.
#[derive(Debug, Clone, PartialEq, Eq)]
pub enum ConfigError {
    /// The text is not well-formed; the payload is the parser's own account.
    Syntax(String),
    /// The text is well-formed, but one of its rows gives no record.
    Row(RowError),
}

/// The header title of a column.
pub open spec fn title(column: Column) -> Seq<char> {
    match column {
        Column::Name => "name"@,
        Column::Description => "description"@,
    }
}

/// The column that a header cell names, if any. Titles are compared as they
/// stand: no trimming, no case folding.
pub open spec fn column_named(cell: Seq<char>) -> Option<Column> {
    if cell == title(Column::Name) {
        Some(Column::Name)
    } else if cell == title(Column::Description) {
        Some(Column::Description)
    } else {
        None
    }
}

/// What the first columns of a row have supplied so far.
pub struct Partial {
    pub name: Option<Seq<char>>,
    pub description: Option<Seq<char>>,
}

/// Reads the first `upto` columns of `row` against `header`, left to right.
/// A column fails when its title was already supplied, or else when the row
/// has no cell for it; the first failing column decides.
pub open spec fn scan(header: Seq<Seq<char>>, row: Seq<Seq<char>>, upto: int) -> Result<
    Partial,
    RowFault,
>
    decreases upto,
{
    if upto <= 0 {
        Ok(Partial { name: None, description: None })
    } else {
        match scan(header, row, upto - 1) {
            Err(fault) => Err(fault),
            Ok(partial) => {
                let at = upto - 1;
                match column_named(header[at]) {
                    Some(Column::Name) => if partial.name.is_some() {
                        Err(RowFault::Repeated(Column::Name))
                    } else if at >= row.len() {
                        Err(RowFault::Truncated)
                    } else {
                        Ok(Partial { name: Some(row[at]), description: partial.description })
                    },
                    Some(Column::Description) => if partial.description.is_some() {
                        Err(RowFault::Repeated(Column::Description))
                    } else if at >= row.len() {
                        Err(RowFault::Truncated)
                    } else {
                        Ok(Partial { name: partial.name, description: Some(row[at]) })
                    },
                    None => if at >= row.len() {
                        Err(RowFault::Truncated)
                    } else {
                        Ok(partial)
                    },
                }
            },
        }
    }
}

/// The record that `row` gives under `header`: the cells below the two
/// titles. Cells of other columns, and cells beyond the header, are ignored.
pub open spec fn record_of(header: Seq<Seq<char>>, row: Seq<Seq<char>>) -> Result<
    RecordView,
    RowFault,
> {
    match scan(header, row, header.len() as int) {
        Err(fault) => Err(fault),
        Ok(partial) => if partial.name.is_none() {
            Err(RowFault::Absent(Column::Name))
        } else if partial.description.is_none() {
            Err(RowFault::Absent(Column::Description))
        } else {
            Ok(RecordView { name: partial.name.unwrap(), description: partial.description.unwrap() })
        },
    }
}

/// The records of the first `upto` rows, the header included in the count:
/// one per row after the header, in order, unless a row fails; then the
/// first failing row decides.
pub open spec fn records_upto(rows: Seq<Seq<Seq<char>>>, upto: int) -> Result<
    Seq<RecordView>,
    RowError,
>
    decreases upto,
{
    if upto <= 1 {
        Ok(Seq::empty())
    } else {
        match records_upto(rows, upto - 1) {
            Err(error) => Err(error),
            Ok(records) => match record_of(rows[0], rows[upto - 1]) {
                Err(fault) => Err(RowError { row: (upto - 1) as usize, fault }),
                Ok(record) => Ok(records.push(record)),
            },
        }
    }
}

/// The records of a whole table of rows. A table without rows, or with a
/// header only, gives no record and no error, whatever the header names.
pub open spec fn records_of(rows: Seq<Seq<Seq<char>>>) -> Result<Seq<RecordView>, RowError> {
    records_upto(rows, rows.len() as int)
}

/// A column that fails decides the row: no later column changes the fault.
pub proof fn lemma_scan_fault_stays(
    header: Seq<Seq<char>>,
    row: Seq<Seq<char>>,
    at: int,
    upto: int,
)
    requires
        at <= upto,
        scan(header, row, at).is_err(),
    ensures
        scan(header, row, upto) == scan(header, row, at),
    decreases upto - at,
{
    if at < upto {
        lemma_scan_fault_stays(header, row, at, upto - 1);
        assert(upto > 0) by {
            if at <= 0 {
                assert(scan(header, row, at).is_ok());
            }
        }
    }
}

/// The column that a header cell names.
pub fn column_of(cell: &str) -> (column: Option<Column>)
    ensures
        column == column_named(cell@),
{
    let cell = cell.to_owned();
    if cell == "name".to_owned() {
        Some(Column::Name)
    } else if cell == "description".to_owned() {
        Some(Column::Description)
    } else {
        None
    }
}

/// Reads one row against the header.
pub fn record_from_row(header: &Vec<String>, row: &Vec<String>) -> (outcome: Result<
    StatusRecord,
    RowFault,
>)
    ensures
        match outcome {
            Ok(record) => record_of(header.deep_view(), row.deep_view()) == Ok::<
                RecordView,
                RowFault,
            >(record@),
            Err(fault) => record_of(header.deep_view(), row.deep_view()) == Err::<
                RecordView,
                RowFault,
            >(fault),
        },
{
    let ghost titles = header.deep_view();
    let ghost cells = row.deep_view();
    let mut name: Option<String> = None;
    let mut description: Option<String> = None;
    let mut at: usize = 0;
    while at < header.len()
        invariant
            at <= header.len(),
            titles == header.deep_view(),
            cells == row.deep_view(),
            scan(titles, cells, at as int) == Ok::<Partial, RowFault>(
                Partial {
                    name: match name {
                        Some(text) => Some(text@),
                        None => None,
                    },
                    description: match description {
                        Some(text) => Some(text@),
                        None => None,
                    },
                },
            ),
        decreases header.len() - at,
    {
        assert(titles[at as int] == header[at as int]@);
        let column = column_of(header[at].as_str());
        let repeated = match column {
            Some(Column::Name) => name.is_some(),
            Some(Column::Description) => description.is_some(),
            None => false,
        };
        if repeated || at >= row.len() {
            proof {
                lemma_scan_fault_stays(titles, cells, at + 1, titles.len() as int);
            }
            return match column {
                Some(named) if repeated => Err(RowFault::Repeated(named)),
                _ => Err(RowFault::Truncated),
            };
        }
        assert(cells[at as int] == row[at as int]@);
        match column {
            Some(Column::Name) => {
                name = Some(row[at].clone());
            },
            Some(Column::Description) => {
                description = Some(row[at].clone());
            },
            None => {},
        }
        at += 1;
    }
    match (name, description) {
        (None, _) => Err(RowFault::Absent(Column::Name)),
        (Some(_), None) => Err(RowFault::Absent(Column::Description)),
        (Some(name), Some(description)) => Ok(StatusRecord { name, description }),
    }
}

/// A row that fails decides the table: no later row changes the error.
pub proof fn lemma_row_error_stays(rows: Seq<Seq<Seq<char>>>, at: int, upto: int)
    requires
        at <= upto,
        records_upto(rows, at).is_err(),
    ensures
        records_upto(rows, upto) == records_upto(rows, at),
    decreases upto - at,
{
    if at < upto {
        lemma_row_error_stays(rows, at, upto - 1);
        assert(upto > 1) by {
            if at <= 1 {
                assert(records_upto(rows, at).is_ok());
            }
        }
    }
}

/// Reads the rows after the header into records, in order, and stops at the
/// first row that gives none.
pub fn records_from_rows(rows: &Vec<Vec<String>>) -> (outcome: Result<Vec<StatusRecord>, RowError>)
    ensures
        match outcome {
            Ok(records) => records_of(rows.deep_view()) == Ok::<Seq<RecordView>, RowError>(
                records.deep_view(),
            ),
            Err(error) => records_of(rows.deep_view()) == Err::<Seq<RecordView>, RowError>(
                error,
            ),
        },
{
    let ghost table = rows.deep_view();
    let mut records: Vec<StatusRecord> = Vec::new();
    assert(records.deep_view() =~= Seq::<RecordView>::empty());
    if rows.len() == 0 {
        return Ok(records);
    }
    let mut at: usize = 1;
    while at < rows.len()
        invariant
            1 <= at <= rows.len(),
            table == rows.deep_view(),
            records_upto(table, at as int) == Ok::<Seq<RecordView>, RowError>(
                records.deep_view(),
            ),
        decreases rows.len() - at,
    {
        assert(table[0] == rows[0].deep_view());
        assert(table[at as int] == rows[at as int].deep_view());
        match record_from_row(&rows[0], &rows[at]) {
            Ok(record) => {
                let ghost before = records.deep_view();
                records.push(record);
                assert(records.deep_view() =~= before.push(record@));
            },
            Err(fault) => {
                proof {
                    lemma_row_error_stays(table, at + 1, table.len() as int);
                }
                return Err(RowError { row: at, fault });
            },
        }
        at += 1;
    }
    Ok(records)
}

/// The parser's error type, carried through as it comes.
#[verifier::external_type_specification]
#[verifier::external_body]
pub struct ExCsvError(csv::Error);

/// The rows that the `csv` crate reads from `data` with its default
/// dialect, the first row taken as a row like the others; none where it
/// reports an error instead. A row is its fields, a field its text.
pub uninterp spec fn csv_rows(data: Seq<u8>) -> Option<Seq<Seq<Seq<char>>>>;

/// Runs `csv::Reader::records` over `data`, with a reader that
/// `csv::ReaderBuilder` made with `has_headers(false)` and no other change,
/// and collects every record's fields. The outcome depends on `data` alone,
/// which is all that the contract claims: it gives it the name `csv_rows`.
#[verifier::external_body]
fn read_rows(data: &[u8]) -> (outcome: Result<Vec<Vec<String>>, csv::Error>)
    ensures
        match outcome {
            Ok(rows) => csv_rows(data@) == Some(rows.deep_view()),
            Err(_) => csv_rows(data@).is_none(),
        },
{
    let mut reader = csv::ReaderBuilder::new().has_headers(false).from_reader(data);
    reader.records().map(|row| row.map(|fields| fields.iter().map(String::from).collect())).collect()
}

/// The text of `csv::Error`'s `Display`. Nothing is claimed of it.
#[verifier::external_body]
fn describe(error: &csv::Error) -> String {
    error.to_string()
}

/// Reads a configuration text into its records: the parser splits the text
/// into rows, then every row after the header must give a record.
pub fn parse(data: &[u8]) -> (outcome: Result<Vec<StatusRecord>, ConfigError>)
    ensures
        match outcome {
            Ok(records) => csv_rows(data@).is_some() && records_of(csv_rows(data@).unwrap())
                == Ok::<Seq<RecordView>, RowError>(records.deep_view()),
            Err(ConfigError::Syntax(_)) => csv_rows(data@).is_none(),
            Err(ConfigError::Row(error)) => csv_rows(data@).is_some() && records_of(
                csv_rows(data@).unwrap(),
            ) == Err::<Seq<RecordView>, RowError>(error),
        },
{
    match read_rows(data) {
        Err(error) => Err(ConfigError::Syntax(describe(&error))),
        Ok(rows) => match records_from_rows(&rows) {
            Ok(records) => Ok(records),
            Err(error) => Err(ConfigError::Row(error)),
        },
    }
}

} // verus!
