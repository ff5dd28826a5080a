//! The legacy flat job file: signed job and file records laid out one after another,
//! with no index or table around them.

use vstd::prelude::*;
use crate::join::{file_views, job_views};
use crate::records::{
    decode_file, decode_job, signed_file_at, signed_job_at, FileRecord, FileView, JobRecord, JobView,
    LEGACY_FILE_SIGNATURE, LEGACY_JOB_SIGNATURE,
};

verus! {

/// The jobs and files stored from `p` on, read record after record until the buffer ends
/// or a record cannot be read.
pub open spec fn legacy_from(d: Seq<u8>, p: int) -> (Seq<JobView>, Seq<FileView>)
    decreases d.len() - p,
{
    if p < 0 || p >= d.len() {
        (Seq::empty(), Seq::empty())
    } else {
        match signed_job_at(d, p, LEGACY_JOB_SIGNATURE) {
            Some((j, e)) => if p < e <= d.len() {
                let (js, fs) = legacy_from(d, e);
                (seq![j] + js, fs)
            } else {
                (Seq::empty(), Seq::empty())
            },
            None => match signed_file_at(d, p, LEGACY_FILE_SIGNATURE) {
                Some((f, e)) => if p < e <= d.len() {
                    let (js, fs) = legacy_from(d, e);
                    (js, seq![f] + fs)
                } else {
                    (Seq::empty(), Seq::empty())
                },
                None => (Seq::empty(), Seq::empty()),
            },
        }
    }
}

/// Decodes the records of a legacy job file in order. Decoding stops, keeping what was
/// decoded, at the end of the buffer or at the first record that cannot be read.
pub fn get_legacy_jobs(data: &[u8]) -> (r: (Vec<JobRecord>, Vec<FileRecord>))
    ensures
        job_views(r.0@) == legacy_from(data@, 0).0,
        file_views(r.1@) == legacy_from(data@, 0).1,
{
    let mut jobs: Vec<JobRecord> = Vec::new();
    let mut files: Vec<FileRecord> = Vec::new();
    let mut pos: usize = 0;
    while pos < data.len()
        invariant
            pos <= data@.len(),
            legacy_from(data@, 0).0 == job_views(jobs@) + legacy_from(data@, pos as int).0,
            legacy_from(data@, 0).1 == file_views(files@) + legacy_from(data@, pos as int).1,
        ensures
            legacy_from(data@, pos as int).0 =~= Seq::<JobView>::empty(),
            legacy_from(data@, pos as int).1 =~= Seq::<FileView>::empty(),
        decreases data@.len() - pos,
    {
        let ghost rest = legacy_from(data@, pos as int);
        let ghost jb = job_views(jobs@);
        let ghost fb = file_views(files@);
        match decode_job(data, pos, LEGACY_JOB_SIGNATURE) {
            Some((job, end)) => {
                if end <= pos || end > data.len() {
                    break;
                }
                let ghost jv = job@;
                jobs.push(job);
                proof {
                    let next = legacy_from(data@, end as int);
                    assert(job_views(jobs@) =~= jb.push(jv));
                    assert(jb + (seq![jv] + next.0) =~= job_views(jobs@) + next.0);
                }
                pos = end;
            },
            None => match decode_file(data, pos, LEGACY_FILE_SIGNATURE) {
                Some((file, end)) => {
                    if end <= pos || end > data.len() {
                        break;
                    }
                    let ghost fv = file@;
                    files.push(file);
                    proof {
                        let next = legacy_from(data@, end as int);
                        assert(file_views(files@) =~= fb.push(fv));
                        assert(fb + (seq![fv] + next.1) =~= file_views(files@) + next.1);
                    }
                    pos = end;
                },
                None => {
                    break;
                },
            },
        }
    }
    proof {
        let rest = legacy_from(data@, pos as int);
        assert(job_views(jobs@) + rest.0 =~= job_views(jobs@));
        assert(file_views(files@) + rest.1 =~= file_views(files@));
    }
    (jobs, files)
}

} // verus!
