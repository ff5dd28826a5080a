//! Job and file records from the rows of a table-based database.
//!
//! An outside table engine turns the database into named tables of rows, each row a list
//! of named, typed cells. A job or file row keeps its record as a signed blob in one
//! column. A row whose blob is missing, is not binary, or does not decode gives a record
//! with every text empty and every number zero, so that one bad row never stops a table.

use vstd::prelude::*;
use crate::join::{file_views, job_views};
use crate::records::{
    blank_file, blank_job, decode_file, decode_job, signed_file_at, signed_job_at, FileRecord, FileView,
    JobRecord, JobView, TABLE_FILE_SIGNATURE, TABLE_JOB_SIGNATURE,
};

verus! {

/// The value of one cell, by the type the table declares for its column.
#[derive(Clone, Debug)]
pub enum CellValue {
    Null,
    Integer(i64),
    Text(String),
    Binary(Vec<u8>),
}

/// One cell of a row.
#[derive(Clone, Debug)]
pub struct Cell {
    pub column: String,
    pub value: CellValue,
}

/// A named table of rows.
#[derive(Clone, Debug)]
pub struct Table {
    pub name: String,
    pub rows: Vec<Vec<Cell>>,
}

/// The bytes of the first cell of `row` in `column`, if that cell is binary.
pub open spec fn blob_of(row: Seq<Cell>, column: Seq<char>) -> Option<Seq<u8>>
    decreases row.len(),
{
    if row.len() == 0 {
        None
    } else if row[0].column@ == column {
        match row[0].value {
            CellValue::Binary(b) => Some(b@),
            _ => None,
        }
    } else {
        blob_of(row.drop_first(), column)
    }
}

/// The job that a row of the jobs table holds.
pub open spec fn job_of_row(row: Seq<Cell>, column: Seq<char>) -> JobView {
    match blob_of(row, column) {
        Some(b) => match signed_job_at(b, 0, TABLE_JOB_SIGNATURE) {
            Some((j, _)) => j,
            None => blank_job(),
        },
        None => blank_job(),
    }
}

/// The file that a row of the files table holds.
pub open spec fn file_of_row(row: Seq<Cell>, column: Seq<char>) -> FileView {
    match blob_of(row, column) {
        Some(b) => match signed_file_at(b, 0, TABLE_FILE_SIGNATURE) {
            Some((f, _)) => f,
            None => blank_file(),
        },
        None => blank_file(),
    }
}

/// The rows of the first table named `name`.
pub open spec fn table_rows(tables: Seq<Table>, name: Seq<char>) -> Option<Seq<Vec<Cell>>>
    decreases tables.len(),
{
    if tables.len() == 0 {
        None
    } else if tables[0].name@ == name {
        Some(tables[0].rows@)
    } else {
        table_rows(tables.drop_first(), name)
    }
}

/// Index of the first table named `name`.
pub fn find_table(tables: &Vec<Table>, name: &String) -> (r: Option<usize>)
    ensures
        r is None <==> table_rows(tables@, name@) is None,
        r matches Some(i) ==> i < tables@.len() && table_rows(tables@, name@) == Some(
            tables@[i as int].rows@,
        ),
{
    assert(tables@.subrange(0, tables@.len() as int) =~= tables@);
    let mut i: usize = 0;
    while i < tables.len()
        invariant
            i <= tables@.len(),
            table_rows(tables@, name@) == table_rows(
                tables@.subrange(i as int, tables@.len() as int),
                name@,
            ),
        decreases tables@.len() - i,
    {
        let ghost rest = tables@.subrange(i as int, tables@.len() as int);
        assert(rest[0] == tables@[i as int]);
        if tables[i].name == *name {
            return Some(i);
        }
        assert(rest.drop_first() =~= tables@.subrange(i + 1, tables@.len() as int));
        i = i + 1;
    }
    None
}

/// The bytes of the first cell of `row` in `column`, if that cell is binary.
fn find_blob<'a>(row: &'a Vec<Cell>, column: &String) -> (r: Option<&'a Vec<u8>>)
    ensures
        r matches Some(b) ==> blob_of(row@, column@) == Some(b@),
        r is None ==> blob_of(row@, column@) is None,
{
    assert(row@.subrange(0, row@.len() as int) =~= row@);
    let mut i: usize = 0;
    while i < row.len()
        invariant
            i <= row@.len(),
            blob_of(row@, column@) == blob_of(row@.subrange(i as int, row@.len() as int), column@),
        decreases row@.len() - i,
    {
        let ghost rest = row@.subrange(i as int, row@.len() as int);
        assert(rest[0] == row@[i as int]);
        if row[i].column == *column {
            return match &row[i].value {
                CellValue::Binary(b) => Some(b),
                _ => None,
            };
        }
        assert(rest.drop_first() =~= row@.subrange(i + 1, row@.len() as int));
        i = i + 1;
    }
    None
}

/// Decodes the job of each row, in order; a row without a readable blob in `column`
/// gives a blank job.
pub fn get_jobs(rows: &Vec<Vec<Cell>>, column: &String) -> (r: Vec<JobRecord>)
    ensures
        job_views(r@) == rows@.map_values(|row: Vec<Cell>| job_of_row(row@, column@)),
{
    let mut out: Vec<JobRecord> = Vec::new();
    let mut i: usize = 0;
    while i < rows.len()
        invariant
            i <= rows@.len(),
            job_views(out@) =~= rows@.subrange(0, i as int).map_values(
                |row: Vec<Cell>| job_of_row(row@, column@),
            ),
        decreases rows@.len() - i,
    {
        let job = match find_blob(&rows[i], column) {
            Some(b) => match decode_job(b.as_slice(), 0, TABLE_JOB_SIGNATURE) {
                Some((j, _)) => j,
                None => JobRecord::blank(),
            },
            None => JobRecord::blank(),
        };
        assert(job@ == job_of_row(rows@[i as int]@, column@));
        let ghost before = job_views(out@);
        out.push(job);
        proof {
            assert(job_views(out@) =~= before.push(job@));
            assert(rows@.subrange(0, i + 1) =~= rows@.subrange(0, i as int).push(rows@[i as int]));
        }
        i = i + 1;
    }
    proof {
        assert(rows@.subrange(0, rows@.len() as int) =~= rows@);
    }
    out
}

/// Decodes the file of each row, in order; a row without a readable blob in `column`
/// gives a blank file.
pub fn get_files(rows: &Vec<Vec<Cell>>, column: &String) -> (r: Vec<FileRecord>)
    ensures
        file_views(r@) == rows@.map_values(|row: Vec<Cell>| file_of_row(row@, column@)),
{
    let mut out: Vec<FileRecord> = Vec::new();
    let mut i: usize = 0;
    while i < rows.len()
        invariant
            i <= rows@.len(),
            file_views(out@) =~= rows@.subrange(0, i as int).map_values(
                |row: Vec<Cell>| file_of_row(row@, column@),
            ),
        decreases rows@.len() - i,
    {
        let file = match find_blob(&rows[i], column) {
            Some(b) => match decode_file(b.as_slice(), 0, TABLE_FILE_SIGNATURE) {
                Some((f, _)) => f,
                None => FileRecord::blank(),
            },
            None => FileRecord::blank(),
        };
        assert(file@ == file_of_row(rows@[i as int]@, column@));
        let ghost before = file_views(out@);
        out.push(file);
        proof {
            assert(file_views(out@) =~= before.push(file@));
            assert(rows@.subrange(0, i + 1) =~= rows@.subrange(0, i as int).push(rows@[i as int]));
        }
        i = i + 1;
    }
    proof {
        assert(rows@.subrange(0, rows@.len() as int) =~= rows@);
    }
    out
}

} // verus!
