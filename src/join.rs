//! Joining job records with file records on their shared file id.

use vstd::prelude::*;
use crate::records::{FileRecord, FileView, JobRecord, JobView};

verus! {

/// A job together with one of its files, the name of the job's owner, and whether the
/// pair was recovered by carving.
#[derive(Clone, Debug)]
pub struct BitsInfo {
    pub job: JobRecord,
    pub file: FileRecord,
    pub username: String,
    pub carved: bool,
}

/// The mathematical content of a [`BitsInfo`].
pub struct BitsInfoView {
    pub job: JobView,
    pub file: FileView,
    pub username: Seq<char>,
    pub carved: bool,
}

impl View for BitsInfo {
    type V = BitsInfoView;

    open spec fn view(&self) -> BitsInfoView {
        BitsInfoView { job: self.job@, file: self.file@, username: self.username@, carved: self.carved }
    }
}

/// Everything collected from one source: joined records, and the jobs and files that
/// carving recovered, which are never joined.
#[derive(Clone, Debug)]
pub struct WindowsBits {
    pub bits: Vec<BitsInfo>,
    pub carved_jobs: Vec<JobRecord>,
    pub carved_files: Vec<FileRecord>,
}

pub open spec fn job_views(s: Seq<JobRecord>) -> Seq<JobView> {
    s.map_values(|j: JobRecord| j@)
}

pub open spec fn file_views(s: Seq<FileRecord>) -> Seq<FileView> {
    s.map_values(|f: FileRecord| f@)
}

pub open spec fn info_views(s: Seq<BitsInfo>) -> Seq<BitsInfoView> {
    s.map_values(|b: BitsInfo| b@)
}

/// Pairs of a SID and the name of its account.
pub open spec fn user_views(s: Seq<(String, String)>) -> Seq<(Seq<char>, Seq<char>)> {
    s.map_values(|u: (String, String)| (u.0@, u.1@))
}

/// The name paired with `sid` by the first entry that holds it, or the empty text.
pub open spec fn username_of(users: Seq<(Seq<char>, Seq<char>)>, sid: Seq<char>) -> Seq<char>
    decreases users.len(),
{
    if users.len() == 0 {
        Seq::empty()
    } else if users[0].0 == sid {
        users[0].1
    } else {
        username_of(users.drop_first(), sid)
    }
}

/// The name of the account with `sid`, or an empty string when none is known.
pub fn lookup_username(users: &Vec<(String, String)>, sid: &String) -> (r: String)
    ensures
        r@ == username_of(user_views(users@), sid@),
{
    let ghost all = user_views(users@);
    assert(all.subrange(0, all.len() as int) =~= all);
    let mut i: usize = 0;
    while i < users.len()
        invariant
            i <= users@.len(),
            all == user_views(users@),
            username_of(all, sid@) == username_of(all.subrange(i as int, all.len() as int), sid@),
        decreases users@.len() - i,
    {
        let ghost rest = all.subrange(i as int, all.len() as int);
        assert(rest[0] == all[i as int]);
        if users[i].0 == *sid {
            return users[i].1.clone();
        }
        assert(rest.drop_first() =~= all.subrange(i + 1, all.len() as int));
        i = i + 1;
    }
    String::new()
}

/// The record that pairs `j` with `f`.
pub open spec fn merged(j: JobView, f: FileView, username: Seq<char>, carved: bool) -> BitsInfoView {
    BitsInfoView { job: j, file: f, username, carved }
}

/// The records that pair `job` with each of the first `n` files that share its file id.
pub open spec fn job_matches(job: JobView, files: Seq<FileView>, n: nat, username: Seq<char>) -> Seq<
    BitsInfoView,
>
    decreases n,
{
    if n == 0 {
        Seq::empty()
    } else {
        let prev = job_matches(job, files, (n - 1) as nat, username);
        if files[n - 1].file_id == job.file_id {
            prev.push(merged(job, files[n - 1], username, false))
        } else {
            prev
        }
    }
}

/// The records that the first `n` jobs give, in order of jobs and then of files.
pub open spec fn join_upto(
    jobs: Seq<JobView>,
    files: Seq<FileView>,
    users: Seq<(Seq<char>, Seq<char>)>,
    n: nat,
) -> Seq<BitsInfoView>
    decreases n,
{
    if n == 0 {
        Seq::empty()
    } else {
        join_upto(jobs, files, users, (n - 1) as nat) + job_matches(
            jobs[n - 1],
            files,
            files.len(),
            username_of(users, jobs[n - 1].owner_sid),
        )
    }
}

/// Every job paired with every file that shares its file id.
pub open spec fn joined(
    jobs: Seq<JobView>,
    files: Seq<FileView>,
    users: Seq<(Seq<char>, Seq<char>)>,
) -> Seq<BitsInfoView> {
    join_upto(jobs, files, users, jobs.len())
}

/// Pairs every job with every file that shares its file id, in order of jobs and then of
/// files. Jobs and files without a counterpart give no record.
pub fn join_records(jobs: &Vec<JobRecord>, files: &Vec<FileRecord>, users: &Vec<(String, String)>) -> (r:
    Vec<BitsInfo>)
    ensures
        info_views(r@) == joined(job_views(jobs@), file_views(files@), user_views(users@)),
{
    let ghost jv = job_views(jobs@);
    let ghost fv = file_views(files@);
    let ghost uv = user_views(users@);
    let mut out: Vec<BitsInfo> = Vec::new();
    let mut i: usize = 0;
    while i < jobs.len()
        invariant
            i <= jobs@.len(),
            jv == job_views(jobs@),
            fv == file_views(files@),
            uv == user_views(users@),
            info_views(out@) == join_upto(jv, fv, uv, i as nat),
        decreases jobs@.len() - i,
    {
        let job = &jobs[i];
        let username = lookup_username(users, &job.owner_sid);
        let ghost start = info_views(out@);
        let mut k: usize = 0;
        while k < files.len()
            invariant
                i < jobs@.len(),
                k <= files@.len(),
                *job == jobs@[i as int],
                jv == job_views(jobs@),
                fv == file_views(files@),
                uv == user_views(users@),
                username@ == username_of(uv, jv[i as int].owner_sid),
                start == join_upto(jv, fv, uv, i as nat),
                info_views(out@) == start + job_matches(jv[i as int], fv, k as nat, username@),
            decreases files@.len() - k,
        {
            let ghost before = info_views(out@);
            if job.file_id == files[k].file_id {
                let info = BitsInfo {
                    job: job.duplicate(),
                    file: files[k].duplicate(),
                    username: username.clone(),
                    carved: false,
                };
                out.push(info);
                proof {
                    assert(info_views(out@) =~= before.push(info@));
                    assert(info@ == merged(jv[i as int], fv[k as int], username@, false));
                }
            }
            proof {
                let prev = job_matches(jv[i as int], fv, k as nat, username@);
                assert(info_views(out@) =~= start + job_matches(
                    jv[i as int],
                    fv,
                    (k + 1) as nat,
                    username@,
                )) by {
                    if fv[k as int].file_id == jv[i as int].file_id {
                        assert(start + prev.push(merged(jv[i as int], fv[k as int], username@, false))
                            =~= (start + prev).push(merged(jv[i as int], fv[k as int], username@, false)));
                    }
                }
            }
            k = k + 1;
        }
        i = i + 1;
    }
    out
}

/// Number of files among the first `n` that share `job`'s file id.
pub open spec fn match_count(job: JobView, files: Seq<FileView>, n: nat) -> nat
    decreases n,
{
    if n == 0 {
        0
    } else {
        match_count(job, files, (n - 1) as nat) + if files[n - 1].file_id == job.file_id {
            1nat
        } else {
            0nat
        }
    }
}

/// Number of (job, file) pairs that share a file id, over the first `n` jobs.
pub open spec fn pair_count(jobs: Seq<JobView>, files: Seq<FileView>, n: nat) -> nat
    decreases n,
{
    if n == 0 {
        0
    } else {
        pair_count(jobs, files, (n - 1) as nat) + match_count(jobs[n - 1], files, files.len())
    }
}

/// `r` is the record that the job at `i` and the file at `j` give, and they share a file id.
pub open spec fn from_pair(
    r: BitsInfoView,
    jobs: Seq<JobView>,
    files: Seq<FileView>,
    users: Seq<(Seq<char>, Seq<char>)>,
    i: int,
    j: int,
) -> bool {
    &&& 0 <= i < jobs.len()
    &&& 0 <= j < files.len()
    &&& jobs[i].file_id == files[j].file_id
    &&& r == merged(jobs[i], files[j], username_of(users, jobs[i].owner_sid), false)
}

/// `r` is the record that `job` and the file at `j` give, and they share a file id.
pub open spec fn file_pair(r: BitsInfoView, job: JobView, files: Seq<FileView>, username: Seq<char>, j: int) -> bool {
    &&& 0 <= j < files.len()
    &&& files[j].file_id == job.file_id
    &&& r == merged(job, files[j], username, false)
}

/// Indices of the files among the first `n` that share `job`'s file id, in order.
pub open spec fn match_indices(job: JobView, files: Seq<FileView>, n: nat) -> Seq<int>
    decreases n,
{
    if n == 0 {
        Seq::empty()
    } else {
        let prev = match_indices(job, files, (n - 1) as nat);
        if files[n - 1].file_id == job.file_id {
            prev.push(n - 1)
        } else {
            prev
        }
    }
}

/// The (job index, file index) pairs that share a file id, over the first `n` jobs, in
/// order of jobs and then of files.
pub open spec fn pair_indices(jobs: Seq<JobView>, files: Seq<FileView>, n: nat) -> Seq<(int, int)>
    decreases n,
{
    if n == 0 {
        Seq::empty()
    } else {
        pair_indices(jobs, files, (n - 1) as nat) + match_indices(jobs[n - 1], files, files.len()).map_values(
            |j: int| ((n - 1) as int, j),
        )
    }
}

proof fn lemma_job_matches(job: JobView, files: Seq<FileView>, n: nat, username: Seq<char>)
    requires
        n <= files.len(),
    ensures
        job_matches(job, files, n, username).len() == match_indices(job, files, n).len(),
        match_indices(job, files, n).len() == match_count(job, files, n),
        forall|k: int|
            #![trigger job_matches(job, files, n, username)[k]]
            0 <= k < job_matches(job, files, n, username).len() ==> file_pair(
                job_matches(job, files, n, username)[k],
                job,
                files,
                username,
                match_indices(job, files, n)[k],
            ),
        forall|j: int|
            #![trigger files[j]]
            0 <= j < n && files[j].file_id == job.file_id ==> exists|k: int|
                0 <= k < job_matches(job, files, n, username).len() && #[trigger] file_pair(
                    job_matches(job, files, n, username)[k],
                    job,
                    files,
                    username,
                    j,
                ),
    decreases n,
{
    if n > 0 {
        let n1 = (n - 1) as nat;
        lemma_job_matches(job, files, n1, username);
        let prev = job_matches(job, files, n1, username);
        let m = job_matches(job, files, n, username);
        let mprev = match_indices(job, files, n1);
        let mi = match_indices(job, files, n);
        assert forall|k: int|
            #![trigger job_matches(job, files, n, username)[k]]
            0 <= k < job_matches(job, files, n, username).len() implies file_pair(
                job_matches(job, files, n, username)[k],
                job,
                files,
                username,
                match_indices(job, files, n)[k],
            ) by {
            if k < prev.len() {
                assert(m[k] == prev[k]);
                assert(mi[k] == mprev[k]);
                assert(prev[k] == job_matches(job, files, n1, username)[k]);
            } else {
                assert(m[k] == merged(job, files[n - 1], username, false));
                assert(mi[k] == n - 1);
            }
        }
        assert forall|j: int| #![trigger files[j]] 0 <= j < n && files[j].file_id == job.file_id implies exists|k: int|
            0 <= k < m.len() && #[trigger] file_pair(m[k], job, files, username, j) by {
            if j < n1 {
                assert(files[j] == files[j]);
                let k = choose|k: int|
                    0 <= k < prev.len() && #[trigger] file_pair(prev[k], job, files, username, j);
                assert(m[k] == prev[k]);
                assert(file_pair(m[k], job, files, username, j));
            } else {
                assert(file_pair(m[prev.len() as int], job, files, username, j));
            }
        }
    } else {
        assert(job_matches(job, files, n, username).len() == 0);
    }
}

proof fn lemma_join_upto(
    jobs: Seq<JobView>,
    files: Seq<FileView>,
    users: Seq<(Seq<char>, Seq<char>)>,
    n: nat,
)
    requires
        n <= jobs.len(),
    ensures
        join_upto(jobs, files, users, n).len() == pair_indices(jobs, files, n).len(),
        pair_indices(jobs, files, n).len() == pair_count(jobs, files, n),
        forall|k: int|
            #![trigger join_upto(jobs, files, users, n)[k]]
            0 <= k < join_upto(jobs, files, users, n).len() ==> from_pair(
                join_upto(jobs, files, users, n)[k],
                jobs,
                files,
                users,
                pair_indices(jobs, files, n)[k].0,
                pair_indices(jobs, files, n)[k].1,
            ),
        forall|i: int, j: int|
            #![trigger jobs[i], files[j]]
            0 <= i < n && 0 <= j < files.len() && jobs[i].file_id == files[j].file_id ==> exists|k: int|
                0 <= k < join_upto(jobs, files, users, n).len() && #[trigger] from_pair(
                    join_upto(jobs, files, users, n)[k],
                    jobs,
                    files,
                    users,
                    i,
                    j,
                ),
    decreases n,
{
    if n > 0 {
        let n1 = (n - 1) as nat;
        lemma_join_upto(jobs, files, users, n1);
        let prev = join_upto(jobs, files, users, n1);
        let pprev = pair_indices(jobs, files, n1);
        let job = jobs[n1 as int];
        let username = username_of(users, job.owner_sid);
        lemma_job_matches(job, files, files.len(), username);
        let m = job_matches(job, files, files.len(), username);
        let mi = match_indices(job, files, files.len());
        let out = join_upto(jobs, files, users, n);
        let pi = pair_indices(jobs, files, n);
        assert(out == prev + m);
        assert(pi == pprev + mi.map_values(|j: int| (n1 as int, j)));
        assert forall|k: int|
            #![trigger join_upto(jobs, files, users, n)[k]]
            0 <= k < join_upto(jobs, files, users, n).len() implies from_pair(
                join_upto(jobs, files, users, n)[k],
                jobs,
                files,
                users,
                pair_indices(jobs, files, n)[k].0,
                pair_indices(jobs, files, n)[k].1,
            ) by {
            if k < prev.len() {
                assert(out[k] == prev[k]);
                assert(pi[k] == pprev[k]);
            } else {
                let k2 = k - prev.len();
                assert(out[k] == m[k2]);
                assert(pi[k] == (n1 as int, mi[k2]));
            }
        }
        assert forall|i: int, j: int|
            #![trigger jobs[i], files[j]]
            0 <= i < n && 0 <= j < files.len() && jobs[i].file_id == files[j].file_id implies exists|k: int|
            0 <= k < out.len() && #[trigger] from_pair(out[k], jobs, files, users, i, j) by {
            if i < n1 {
                assert(jobs[i] == jobs[i] && files[j] == files[j]);
                let k = choose|k: int|
                    0 <= k < prev.len() && #[trigger] from_pair(prev[k], jobs, files, users, i, j);
                assert(out[k] == prev[k]);
                assert(from_pair(out[k], jobs, files, users, i, j));
            } else {
                assert(files[j] == files[j]);
                let k2 = choose|k2: int| 0 <= k2 < m.len() && #[trigger] file_pair(m[k2], job, files, username, j);
                assert(out[prev.len() + k2] == m[k2]);
                assert(from_pair(out[prev.len() + k2], jobs, files, users, i, j));
            }
        }
    } else {
        assert(join_upto(jobs, files, users, n).len() == 0);
    }
}

/// Joining gives one record for each (job, file) pair that shares a file id, and nothing
/// else. The `k`-th record comes from the `k`-th such pair (in order of jobs, then of
/// files), every such pair gives a record, and there are exactly as many records as such
/// pairs. Jobs and files without a counterpart give no record.
pub proof fn lemma_join_complete(
    jobs: Seq<JobView>,
    files: Seq<FileView>,
    users: Seq<(Seq<char>, Seq<char>)>,
)
    ensures
        joined(jobs, files, users).len() == pair_count(jobs, files, jobs.len()),
        joined(jobs, files, users).len() == pair_indices(jobs, files, jobs.len()).len(),
        forall|k: int|
            #![trigger joined(jobs, files, users)[k]]
            0 <= k < joined(jobs, files, users).len() ==> from_pair(
                joined(jobs, files, users)[k],
                jobs,
                files,
                users,
                pair_indices(jobs, files, jobs.len())[k].0,
                pair_indices(jobs, files, jobs.len())[k].1,
            ),
        forall|i: int, j: int|
            #![trigger jobs[i], files[j]]
            0 <= i < jobs.len() && 0 <= j < files.len() && jobs[i].file_id == files[j].file_id ==> exists|k: int|
                0 <= k < joined(jobs, files, users).len() && #[trigger] from_pair(
                    joined(jobs, files, users)[k],
                    jobs,
                    files,
                    users,
                    i,
                    j,
                ),
{
    lemma_join_upto(jobs, files, users, jobs.len());
}

} // verus!
