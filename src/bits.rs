//! Collecting background-transfer artifacts from either on-disk generation.
//!
//! Reading files and running the table engine happen outside this library: the functions
//! here take the bytes and tables that those steps produced.

use vstd::prelude::*;
use crate::carve::{carved, parse_carve};
use crate::join::{
    file_views, info_views, job_views, join_records, joined, lookup_username, user_views, username_of,
    BitsInfo, BitsInfoView, WindowsBits,
};
use crate::legacy::{get_legacy_jobs, legacy_from};
use crate::records::{FileRecord, FileView, JobRecord, JobView};
use crate::tables::{file_of_row, find_table, get_files, get_jobs, job_of_row, table_rows, Cell, Table};

verus! {

/// Why a source gave no collection.
#[derive(Clone, Copy, Debug, PartialEq, Eq)]
pub enum BitsError {
    /// The table engine could not read the database.
    ParseEse,
    /// The jobs table is not among the extracted tables.
    MissingJobs,
    /// The files table is not among the extracted tables.
    MissingFiles,
    /// The file could not be read.
    ReadFile,
}

/// Where the records sit in the table-based database.
#[derive(Clone, Debug)]
pub struct BitsSchema {
    pub jobs_table: String,
    pub files_table: String,
    pub blob_column: String,
}

impl BitsSchema {
    /// The names that the job database uses: tables `Jobs` and `Files`, column `Blob`.
    pub fn standard() -> (r: BitsSchema)
        ensures
            r.jobs_table@ == "Jobs"@,
            r.files_table@ == "Files"@,
            r.blob_column@ == "Blob"@,
    {
        BitsSchema {
            jobs_table: "Jobs".to_owned(),
            files_table: "Files".to_owned(),
            blob_column: "Blob".to_owned(),
        }
    }
}

/// What a collection holds: joined records, carved jobs, carved files.
pub open spec fn collection_model(w: WindowsBits) -> (Seq<BitsInfoView>, Seq<JobView>, Seq<FileView>) {
    (info_views(w.bits@), job_views(w.carved_jobs@), file_views(w.carved_files@))
}

/// The collection that a table-based database gives, when both tables are present.
pub open spec fn ese_model(
    jobs_rows: Seq<Vec<Cell>>,
    files_rows: Seq<Vec<Cell>>,
    column: Seq<char>,
    users: Seq<(Seq<char>, Seq<char>)>,
    carve_data: Option<Seq<u8>>,
) -> (Seq<BitsInfoView>, Seq<JobView>, Seq<FileView>) {
    let jobs = jobs_rows.map_values(|row: Vec<Cell>| job_of_row(row@, column));
    let files = files_rows.map_values(|row: Vec<Cell>| file_of_row(row@, column));
    let found = match carve_data {
        Some(d) => carved(d, false),
        None => (Seq::empty(), Seq::empty(), Seq::empty()),
    };
    (joined(jobs, files, users), found.1, found.2)
}

/// The raw bytes handed over for carving, if any.
pub open spec fn raw_view(carve_data: Option<&[u8]>) -> Option<Seq<u8>> {
    match carve_data {
        Some(d) => Some(d@),
        None => None,
    }
}

/// Collects from the tables of a table-based job database. The jobs and files of the two
/// tables are joined on their file id. When `carve_data` holds the raw database file, the
/// jobs and files carved from it are added unjoined. Fails when either table is missing,
/// with nothing collected.
pub fn parse_ese_bits(
    tables: &Vec<Table>,
    schema: &BitsSchema,
    users: &Vec<(String, String)>,
    carve_data: Option<&[u8]>,
) -> (r: Result<WindowsBits, BitsError>)
    ensures
        table_rows(tables@, schema.jobs_table@) is None ==> r == Err::<WindowsBits, BitsError>(
            BitsError::MissingJobs,
        ),
        table_rows(tables@, schema.jobs_table@) is Some && table_rows(tables@, schema.files_table@) is None
            ==> r == Err::<WindowsBits, BitsError>(BitsError::MissingFiles),
        r matches Ok(w) ==> {
            &&& table_rows(tables@, schema.jobs_table@) matches Some(jr)
            &&& table_rows(tables@, schema.files_table@) matches Some(fr)
            &&& collection_model(w) == ese_model(
                jr,
                fr,
                schema.blob_column@,
                user_views(users@),
                raw_view(carve_data),
            )
        },
        table_rows(tables@, schema.jobs_table@) is Some && table_rows(tables@, schema.files_table@) is Some
            ==> r is Ok,
{
    let ji = match find_table(tables, &schema.jobs_table) {
        Some(i) => i,
        None => return Err(BitsError::MissingJobs),
    };
    let jobs = get_jobs(&tables[ji].rows, &schema.blob_column);
    let fi = match find_table(tables, &schema.files_table) {
        Some(i) => i,
        None => return Err(BitsError::MissingFiles),
    };
    let files = get_files(&tables[fi].rows, &schema.blob_column);
    let bits = join_records(&jobs, &files, users);
    let (carved_jobs, carved_files) = match carve_data {
        Some(raw) => {
            let (_, cj, cf) = parse_carve(raw, false);
            (cj, cf)
        },
        None => {
            let cj: Vec<JobRecord> = Vec::new();
            let cf: Vec<FileRecord> = Vec::new();
            proof {
                assert(job_views(cj@) =~= Seq::<JobView>::empty());
                assert(file_views(cf@) =~= Seq::<FileView>::empty());
            }
            (cj, cf)
        },
    };
    Ok(WindowsBits { bits, carved_jobs, carved_files })
}

/// The records `bs` with each username looked up by the job's owner SID.
pub open spec fn with_usernames(bs: Seq<BitsInfoView>, users: Seq<(Seq<char>, Seq<char>)>) -> Seq<
    BitsInfoView,
> {
    bs.map_values(
        |b: BitsInfoView|
            BitsInfoView {
                job: b.job,
                file: b.file,
                username: username_of(users, b.job.owner_sid),
                carved: b.carved,
            },
    )
}

/// The collection that one legacy job file gives.
pub open spec fn legacy_model(d: Seq<u8>, users: Seq<(Seq<char>, Seq<char>)>, carve: bool) -> (
    Seq<BitsInfoView>,
    Seq<JobView>,
    Seq<FileView>,
) {
    let live = joined(legacy_from(d, 0).0, legacy_from(d, 0).1, users);
    if carve {
        let found = carved(d, true);
        (live + with_usernames(found.0, users), found.1, found.2)
    } else {
        (live, Seq::empty(), Seq::empty())
    }
}

/// Collects from one legacy job file: its jobs joined with its files, and, when `carve`
/// is set, what carving the same bytes recovers. Joined records that carving could relate
/// are added to the joined records, marked as carved, with the username looked up by the
/// job's owner SID.
pub fn legacy_bits(data: &[u8], users: &Vec<(String, String)>, carve: bool) -> (r: WindowsBits)
    ensures
        collection_model(r) == legacy_model(data@, user_views(users@), carve),
{
    let (jobs, files) = get_legacy_jobs(data);
    let mut bits = join_records(&jobs, &files, users);
    let mut carved_jobs: Vec<JobRecord> = Vec::new();
    let mut carved_files: Vec<FileRecord> = Vec::new();
    if carve {
        let (cb, cj, cf) = parse_carve(data, true);
        let ghost live = info_views(bits@);
        let ghost named = with_usernames(info_views(cb@), user_views(users@));
        let mut i: usize = 0;
        while i < cb.len()
            invariant
                i <= cb@.len(),
                named == with_usernames(info_views(cb@), user_views(users@)),
                info_views(bits@) =~= live + named.subrange(0, i as int),
            decreases cb@.len() - i,
        {
            let b = &cb[i];
            let info = BitsInfo {
                job: b.job.duplicate(),
                file: b.file.duplicate(),
                username: lookup_username(users, &b.job.owner_sid),
                carved: b.carved,
            };
            let ghost before = info_views(bits@);
            bits.push(info);
            proof {
                assert(info@ == named[i as int]);
                assert(info_views(bits@) =~= before.push(info@));
                assert(named.subrange(0, i + 1) =~= named.subrange(0, i as int).push(named[i as int]));
            }
            i = i + 1;
        }
        proof {
            assert(named.subrange(0, cb@.len() as int) =~= named);
        }
        carved_jobs = cj;
        carved_files = cf;
    } else {
        proof {
            assert(job_views(carved_jobs@) =~= Seq::<JobView>::empty());
            assert(file_views(carved_files@) =~= Seq::<FileView>::empty());
        }
    }
    WindowsBits { bits, carved_jobs, carved_files }
}

/// What the first `n` legacy files give together, in order.
pub open spec fn legacy_sources_model(
    sources: Seq<Vec<u8>>,
    n: nat,
    users: Seq<(Seq<char>, Seq<char>)>,
    carve: bool,
) -> (Seq<BitsInfoView>, Seq<JobView>, Seq<FileView>)
    decreases n,
{
    if n == 0 {
        (Seq::empty(), Seq::empty(), Seq::empty())
    } else {
        let prev = legacy_sources_model(sources, (n - 1) as nat, users, carve);
        let one = legacy_model(sources[n - 1]@, users, carve);
        (prev.0 + one.0, prev.1 + one.1, prev.2 + one.2)
    }
}

/// Collects from every legacy job file that could be read, one after another.
pub fn parse_legacy_bits(sources: &Vec<Vec<u8>>, users: &Vec<(String, String)>, carve: bool) -> (r:
    WindowsBits)
    ensures
        collection_model(r) == legacy_sources_model(
            sources@,
            sources@.len(),
            user_views(users@),
            carve,
        ),
{
    let mut bits: Vec<BitsInfo> = Vec::new();
    let mut carved_jobs: Vec<JobRecord> = Vec::new();
    let mut carved_files: Vec<FileRecord> = Vec::new();
    proof {
        assert(info_views(bits@) =~= Seq::<BitsInfoView>::empty());
        assert(job_views(carved_jobs@) =~= Seq::<JobView>::empty());
        assert(file_views(carved_files@) =~= Seq::<FileView>::empty());
    }
    let mut i: usize = 0;
    while i < sources.len()
        invariant
            i <= sources@.len(),
            (info_views(bits@), job_views(carved_jobs@), file_views(carved_files@))
                == legacy_sources_model(sources@, i as nat, user_views(users@), carve),
        decreases sources@.len() - i,
    {
        let mut one = legacy_bits(sources[i].as_slice(), users, carve);
        let ghost b0 = bits@;
        let ghost j0 = carved_jobs@;
        let ghost f0 = carved_files@;
        let ghost o = collection_model(one);
        bits.append(&mut one.bits);
        carved_jobs.append(&mut one.carved_jobs);
        carved_files.append(&mut one.carved_files);
        proof {
            assert(info_views(bits@) =~= info_views(b0) + o.0);
            assert(job_views(carved_jobs@) =~= job_views(j0) + o.1);
            assert(file_views(carved_files@) =~= file_views(f0) + o.2);
        }
        i = i + 1;
    }
    WindowsBits { bits, carved_jobs, carved_files }
}

} // verus!
