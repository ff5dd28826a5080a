//! Best-effort recovery of job and file records from raw bytes.
//!
//! Deleted records often stay in a file after the index that pointed at them is gone.
//! The scanner therefore ignores record boundaries and tries every byte position: where
//! the bytes equal a job or file signature of the chosen generation, the record after
//! it is decoded. A signature that occurs by chance inside other data is a false
//! positive: it is kept when the bytes after it happen to decode, and otherwise it makes
//! the whole scan give nothing (see below). Recovered records may overlap, be stale, or
//! repeat live ones.
//!
//! Jobs and files are returned apart: the key that links them cannot be trusted once the
//! structure around them is gone. The one exception is the legacy generation, where a
//! file record written directly after a job, with the same file id, is taken as that
//! job's file and also given as a joined record marked as carved. The scanner knows no
//! accounts, so such a record has an empty username until a collector looks it up.
//!
//! A signature whose record cannot be decoded marks the buffer as damaged, and the scan
//! then gives three empty lists: carving never fails a collection run.

use vstd::prelude::*;
use crate::join::{file_views, info_views, job_views, merged, BitsInfo, BitsInfoView};
use crate::records::{
    decode_file, decode_job, has_signature, signed_at, signed_file_at, signed_job_at, FileRecord,
    FileView, JobRecord, JobView, LEGACY_FILE_SIGNATURE, LEGACY_JOB_SIGNATURE, TABLE_FILE_SIGNATURE,
    TABLE_JOB_SIGNATURE,
};

verus! {

/// The job signature of a generation.
pub open spec fn job_signature(is_legacy: bool) -> u64 {
    if is_legacy {
        LEGACY_JOB_SIGNATURE
    } else {
        TABLE_JOB_SIGNATURE
    }
}

/// The file signature of a generation.
pub open spec fn file_signature(is_legacy: bool) -> u64 {
    if is_legacy {
        LEGACY_FILE_SIGNATURE
    } else {
        TABLE_FILE_SIGNATURE
    }
}

/// The joined record that a carved job `j`, ending at `e`, gives: in the legacy
/// generation, the job with a file record that follows it directly and shares its file id.
pub open spec fn related_at(d: Seq<u8>, j: JobView, e: int, is_legacy: bool) -> Seq<BitsInfoView> {
    if is_legacy {
        match signed_file_at(d, e, LEGACY_FILE_SIGNATURE) {
            Some((f, _)) => if f.file_id == j.file_id {
                seq![merged(j, f, Seq::empty(), true)]
            } else {
                Seq::empty()
            },
            None => Seq::empty(),
        }
    } else {
        Seq::empty()
    }
}

/// What the scan has found over positions below `n`, or `None` once a signature has
/// been found whose record cannot be decoded.
pub open spec fn carve_upto(d: Seq<u8>, n: nat, is_legacy: bool) -> Option<
    (Seq<BitsInfoView>, Seq<JobView>, Seq<FileView>),
>
    decreases n,
{
    if n == 0 {
        Some((Seq::empty(), Seq::empty(), Seq::empty()))
    } else {
        match carve_upto(d, (n - 1) as nat, is_legacy) {
            None => None,
            Some((bs, js, fs)) => {
                let p = n - 1;
                if signed_at(d, p, job_signature(is_legacy)) {
                    match signed_job_at(d, p, job_signature(is_legacy)) {
                        None => None,
                        Some((j, e)) => Some((bs + related_at(d, j, e, is_legacy), js.push(j), fs)),
                    }
                } else if signed_at(d, p, file_signature(is_legacy)) {
                    match signed_file_at(d, p, file_signature(is_legacy)) {
                        None => None,
                        Some((f, _)) => Some((bs, js, fs.push(f))),
                    }
                } else {
                    Some((bs, js, fs))
                }
            },
        }
    }
}

/// The outcome of carving `d`: joined records, jobs and files; all three empty when the
/// buffer is damaged.
pub open spec fn carved(d: Seq<u8>, is_legacy: bool) -> (
    Seq<BitsInfoView>,
    Seq<JobView>,
    Seq<FileView>,
) {
    match carve_upto(d, d.len(), is_legacy) {
        Some(found) => found,
        None => (Seq::empty(), Seq::empty(), Seq::empty()),
    }
}

/// Position `p` holds a signature of the generation whose record cannot be decoded.
pub open spec fn damaged_at(d: Seq<u8>, p: int, is_legacy: bool) -> bool {
    if signed_at(d, p, job_signature(is_legacy)) {
        signed_job_at(d, p, job_signature(is_legacy)) is None
    } else {
        signed_at(d, p, file_signature(is_legacy)) && signed_file_at(
            d,
            p,
            file_signature(is_legacy),
        ) is None
    }
}

/// Once the scan has met a damaged record, it stays failed.
proof fn lemma_carve_failure_stays(d: Seq<u8>, n: nat, m: nat, is_legacy: bool)
    requires
        n <= m,
        carve_upto(d, n, is_legacy) is None,
    ensures
        carve_upto(d, m, is_legacy) is None,
    decreases m - n,
{
    if n < m {
        lemma_carve_failure_stays(d, n, (m - 1) as nat, is_legacy);
    }
}

/// Carving never fails a run: a buffer with a damaged or truncated record under a
/// signature gives three empty lists rather than an error.
pub proof fn lemma_damaged_buffer_gives_nothing(d: Seq<u8>, p: int, is_legacy: bool)
    requires
        0 <= p < d.len(),
        damaged_at(d, p, is_legacy),
    ensures
        carved(d, is_legacy).0.len() == 0,
        carved(d, is_legacy).1.len() == 0,
        carved(d, is_legacy).2.len() == 0,
{
    assert(carve_upto(d, (p + 1) as nat, is_legacy) is None);
    lemma_carve_failure_stays(d, (p + 1) as nat, d.len(), is_legacy);
}

/// Scans `data` for records of the chosen generation, as the module documentation
/// describes. Returns joined records (legacy generation only), jobs and files.
pub fn parse_carve(data: &[u8], is_legacy: bool) -> (r: (Vec<BitsInfo>, Vec<JobRecord>, Vec<FileRecord>))
    ensures
        (info_views(r.0@), job_views(r.1@), file_views(r.2@)) == carved(data@, is_legacy),
{
    let job_sig = if is_legacy {
        LEGACY_JOB_SIGNATURE
    } else {
        TABLE_JOB_SIGNATURE
    };
    let file_sig = if is_legacy {
        LEGACY_FILE_SIGNATURE
    } else {
        TABLE_FILE_SIGNATURE
    };
    let mut bits: Vec<BitsInfo> = Vec::new();
    let mut jobs: Vec<JobRecord> = Vec::new();
    let mut files: Vec<FileRecord> = Vec::new();
    let mut p: usize = 0;
    while p < data.len()
        invariant
            p <= data@.len(),
            job_sig == job_signature(is_legacy),
            file_sig == file_signature(is_legacy),
            carve_upto(data@, p as nat, is_legacy) == Some(
                (info_views(bits@), job_views(jobs@), file_views(files@)),
            ),
        decreases data@.len() - p,
    {
        let ghost bs = info_views(bits@);
        let ghost js = job_views(jobs@);
        let ghost fs = file_views(files@);
        if has_signature(data, p, job_sig) {
            match decode_job(data, p, job_sig) {
                None => {
                    proof {
                        lemma_carve_failure_stays(data@, (p + 1) as nat, data@.len(), is_legacy);
                    }
                    return (Vec::new(), Vec::new(), Vec::new());
                },
                Some((job, end)) => {
                    if is_legacy {
                        match decode_file(data, end, LEGACY_FILE_SIGNATURE) {
                            Some((file, _)) => {
                                if file.file_id == job.file_id {
                                    let info = BitsInfo {
                                        job: job.duplicate(),
                                        file,
                                        username: String::new(),
                                        carved: true,
                                    };
                                    bits.push(info);
                                    proof {
                                        assert(info_views(bits@) =~= bs + related_at(
                                            data@,
                                            job@,
                                            end as int,
                                            is_legacy,
                                        ));
                                    }
                                } else {
                                    proof {
                                        assert(bs + related_at(data@, job@, end as int, is_legacy) =~= bs);
                                    }
                                }
                            },
                            None => {
                                proof {
                                    assert(bs + related_at(data@, job@, end as int, is_legacy) =~= bs);
                                }
                            },
                        }
                    } else {
                        proof {
                            assert(bs + related_at(data@, job@, end as int, is_legacy) =~= bs);
                        }
                    }
                    let ghost jv = job@;
                    jobs.push(job);
                    proof {
                        assert(job_views(jobs@) =~= js.push(jv));
                    }
                },
            }
        } else if has_signature(data, p, file_sig) {
            match decode_file(data, p, file_sig) {
                None => {
                    proof {
                        lemma_carve_failure_stays(data@, (p + 1) as nat, data@.len(), is_legacy);
                    }
                    return (Vec::new(), Vec::new(), Vec::new());
                },
                Some((file, _)) => {
                    let ghost fv = file@;
                    files.push(file);
                    proof {
                        assert(file_views(files@) =~= fs.push(fv));
                    }
                },
            }
        }
        p = p + 1;
    }
    (bits, jobs, files)
}

} // verus!
