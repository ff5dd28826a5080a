//! Background-transfer job and file records, and the binary layout they are stored in.
//!
//! Both on-disk generations store a record as an 8-byte signature followed by a body.
//! All integers are little-endian. A text field is a 32-bit count of UTF-16 code units
//! followed by those units; a text list is a 32-bit count of text fields followed by them.
//!
//! Job body: job type, state, priority, flags, error count, transient error count,
//! timeout and retry delay (eight 32-bit integers); created, modified, completed and
//! expiration FILETIMEs; the texts job id, file id, owner SID, name, description, command,
//! arguments, HTTP method and target path; then the ACL list and the additional-SID list.
//!
//! File body: files transferred (32 bits), download size and transfer size (64 bits each);
//! then the texts file id, full path, file name, temporary path, volume and URL.

use vstd::prelude::*;
use crate::cursor::{clone_texts, prepend_texts, texts, u32_at, u64_at, unix_seconds, utf16_text_at, ByteCursor, Endian};

verus! {

/// Signature of a job record in the legacy flat file (the bytes `BITSJOB` and 1).
pub const LEGACY_JOB_SIGNATURE: u64 = 0x01424F4A53544942;

/// Signature of a file record in the legacy flat file (the bytes `BITSFIL` and 1).
pub const LEGACY_FILE_SIGNATURE: u64 = 0x014C494653544942;

/// Signature of a job blob in the table-based database (the bytes `BITSJOB` and 2).
pub const TABLE_JOB_SIGNATURE: u64 = 0x02424F4A53544942;

/// Signature of a file blob in the table-based database (the bytes `BITSFIL` and 2).
pub const TABLE_FILE_SIGNATURE: u64 = 0x024C494653544942;

/// Size of the integer fields at the start of a job body.
pub const JOB_FIXED_LEN: usize = 64;

/// Size of the integer fields at the start of a file body.
pub const FILE_FIXED_LEN: usize = 20;

/// The text field at `p`, with the position after it.
pub open spec fn text_at(d: Seq<u8>, p: int) -> Option<(Seq<char>, int)> {
    if p + 4 > d.len() {
        None
    } else {
        let n = u32_at(d, p, Endian::Le);
        if p + 4 + 2 * n > d.len() {
            None
        } else {
            Some((utf16_text_at(d, p + 4, n as nat), p + 4 + 2 * n))
        }
    }
}

/// The `n` text fields stored from `p` on, with the position after the last one.
pub open spec fn texts_at(d: Seq<u8>, p: int, n: nat) -> Option<(Seq<Seq<char>>, int)>
    decreases n,
{
    if n == 0 {
        Some((Seq::empty(), p))
    } else {
        match text_at(d, p) {
            None => None,
            Some((t, q)) => match texts_at(d, q, (n - 1) as nat) {
                None => None,
                Some((rest, e)) => Some((seq![t] + rest, e)),
            },
        }
    }
}

/// The text list at `p`, with the position after it.
pub open spec fn text_list_at(d: Seq<u8>, p: int) -> Option<(Seq<Seq<char>>, int)> {
    if p + 4 > d.len() {
        None
    } else {
        texts_at(d, p + 4, u32_at(d, p, Endian::Le) as nat)
    }
}

/// A successful read of `n` texts yields `n` of them.
pub proof fn lemma_texts_at_len(d: Seq<u8>, p: int, n: nat)
    ensures
        texts_at(d, p, n) matches Some((s, _)) ==> s.len() == n,
    decreases n,
{
    if n > 0 {
        match text_at(d, p) {
            Some((t, q)) => lemma_texts_at_len(d, q, (n - 1) as nat),
            None => {},
        }
    }
}

/// Reads the text field at the cursor.
fn read_text<'a>(c: &ByteCursor<'a>) -> (r: Option<(String, ByteCursor<'a>)>)
    requires
        c.wf(),
    ensures
        r is Some <==> text_at(c.data@, c.pos as int) is Some,
        r matches Some((s, c2)) ==> {
            &&& c2.wf()
            &&& c2.data@ == c.data@
            &&& text_at(c.data@, c.pos as int) == Some((s@, c2.pos as int))
        },
{
    match c.read_u32(Endian::Le) {
        Some((n, c1)) => c1.read_utf16(n as usize),
        None => None,
    }
}

/// Reads `n` text fields from the cursor on.
fn read_texts<'a>(c: &ByteCursor<'a>, n: u32) -> (r: Option<(Vec<String>, ByteCursor<'a>)>)
    requires
        c.wf(),
    ensures
        r is Some <==> texts_at(c.data@, c.pos as int, n as nat) is Some,
        r matches Some((v, c2)) ==> {
            &&& c2.wf()
            &&& c2.data@ == c.data@
            &&& texts_at(c.data@, c.pos as int, n as nat) == Some((texts(v@), c2.pos as int))
        },
{
    let mut out: Vec<String> = Vec::new();
    let mut cur = ByteCursor { data: c.data, pos: c.pos };
    let mut k: u32 = 0;
    while k < n
        invariant
            k <= n,
            c.wf(),
            cur.wf(),
            cur.data@ == c.data@,
            texts_at(c.data@, c.pos as int, n as nat) == prepend_texts(
                texts(out@),
                texts_at(c.data@, cur.pos as int, (n - k) as nat),
            ),
        decreases n - k,
    {
        let ghost before = out@;
        let ghost m = (n - k) as nat;
        let (t, next) = match read_text(&cur) {
            Some(x) => x,
            None => return None,
        };
        out.push(t);
        proof {
            assert(texts(out@) =~= texts(before).push(t@));
            match texts_at(c.data@, next.pos as int, (m - 1) as nat) {
                Some((s, e)) => {
                    assert(texts(before) + (seq![t@] + s) =~= texts(out@) + s);
                },
                None => {},
            }
        }
        cur = next;
        k = k + 1;
    }
    proof {
        assert(texts(out@) + Seq::<Seq<char>>::empty() =~= texts(out@));
    }
    Some((out, cur))
}

/// Reads the text list at the cursor.
fn read_text_list<'a>(c: &ByteCursor<'a>) -> (r: Option<(Vec<String>, ByteCursor<'a>)>)
    requires
        c.wf(),
    ensures
        r is Some <==> text_list_at(c.data@, c.pos as int) is Some,
        r matches Some((v, c2)) ==> {
            &&& c2.wf()
            &&& c2.data@ == c.data@
            &&& text_list_at(c.data@, c.pos as int) == Some((texts(v@), c2.pos as int))
        },
{
    match c.read_u32(Endian::Le) {
        Some((n, c1)) => read_texts(&c1, n),
        None => None,
    }
}

/// A download job.
#[derive(Clone, Debug)]
pub struct JobRecord {
    pub job_id: String,
    pub file_id: String,
    pub owner_sid: String,
    pub created: i64,
    pub modified: i64,
    pub completed: i64,
    pub expiration: i64,
    pub job_name: String,
    pub job_description: String,
    pub job_command: String,
    pub job_arguments: String,
    pub error_count: u32,
    pub job_type: u32,
    pub job_state: u32,
    pub priority: u32,
    pub flags: u32,
    pub http_method: String,
    pub target_path: String,
    pub timeout: u32,
    pub retry_delay: u32,
    pub transient_error_count: u32,
    pub acls: Vec<String>,
    pub additional_sids: Vec<String>,
}

/// The mathematical content of a [`JobRecord`].
pub struct JobView {
    pub job_id: Seq<char>,
    pub file_id: Seq<char>,
    pub owner_sid: Seq<char>,
    pub created: int,
    pub modified: int,
    pub completed: int,
    pub expiration: int,
    pub job_name: Seq<char>,
    pub job_description: Seq<char>,
    pub job_command: Seq<char>,
    pub job_arguments: Seq<char>,
    pub error_count: u32,
    pub job_type: u32,
    pub job_state: u32,
    pub priority: u32,
    pub flags: u32,
    pub http_method: Seq<char>,
    pub target_path: Seq<char>,
    pub timeout: u32,
    pub retry_delay: u32,
    pub transient_error_count: u32,
    pub acls: Seq<Seq<char>>,
    pub additional_sids: Seq<Seq<char>>,
}

impl View for JobRecord {
    type V = JobView;

    open spec fn view(&self) -> JobView {
        JobView {
            job_id: self.job_id@,
            file_id: self.file_id@,
            owner_sid: self.owner_sid@,
            created: self.created as int,
            modified: self.modified as int,
            completed: self.completed as int,
            expiration: self.expiration as int,
            job_name: self.job_name@,
            job_description: self.job_description@,
            job_command: self.job_command@,
            job_arguments: self.job_arguments@,
            error_count: self.error_count,
            job_type: self.job_type,
            job_state: self.job_state,
            priority: self.priority,
            flags: self.flags,
            http_method: self.http_method@,
            target_path: self.target_path@,
            timeout: self.timeout,
            retry_delay: self.retry_delay,
            transient_error_count: self.transient_error_count,
            acls: texts(self.acls@),
            additional_sids: texts(self.additional_sids@),
        }
    }
}

/// A file transferred by a job.
#[derive(Clone, Debug)]
pub struct FileRecord {
    pub file_id: String,
    pub files_transferred: u32,
    pub download_bytes_size: u64,
    pub transfer_bytes_size: u64,
    pub full_path: String,
    pub filename: String,
    pub tmp_fullpath: String,
    pub volume: String,
    pub url: String,
}

/// The mathematical content of a [`FileRecord`].
pub struct FileView {
    pub file_id: Seq<char>,
    pub files_transferred: u32,
    pub download_bytes_size: u64,
    pub transfer_bytes_size: u64,
    pub full_path: Seq<char>,
    pub filename: Seq<char>,
    pub tmp_fullpath: Seq<char>,
    pub volume: Seq<char>,
    pub url: Seq<char>,
}

impl View for FileRecord {
    type V = FileView;

    open spec fn view(&self) -> FileView {
        FileView {
            file_id: self.file_id@,
            files_transferred: self.files_transferred,
            download_bytes_size: self.download_bytes_size,
            transfer_bytes_size: self.transfer_bytes_size,
            full_path: self.full_path@,
            filename: self.filename@,
            tmp_fullpath: self.tmp_fullpath@,
            volume: self.volume@,
            url: self.url@,
        }
    }
}

/// A job with every text empty and every number zero.
pub open spec fn blank_job() -> JobView {
    JobView {
        job_id: Seq::empty(),
        file_id: Seq::empty(),
        owner_sid: Seq::empty(),
        created: 0,
        modified: 0,
        completed: 0,
        expiration: 0,
        job_name: Seq::empty(),
        job_description: Seq::empty(),
        job_command: Seq::empty(),
        job_arguments: Seq::empty(),
        error_count: 0,
        job_type: 0,
        job_state: 0,
        priority: 0,
        flags: 0,
        http_method: Seq::empty(),
        target_path: Seq::empty(),
        timeout: 0,
        retry_delay: 0,
        transient_error_count: 0,
        acls: Seq::empty(),
        additional_sids: Seq::empty(),
    }
}

/// A file with every text empty and every number zero.
pub open spec fn blank_file() -> FileView {
    FileView {
        file_id: Seq::empty(),
        files_transferred: 0,
        download_bytes_size: 0,
        transfer_bytes_size: 0,
        full_path: Seq::empty(),
        filename: Seq::empty(),
        tmp_fullpath: Seq::empty(),
        volume: Seq::empty(),
        url: Seq::empty(),
    }
}

impl JobRecord {
    /// A job with every text empty and every number zero.
    pub fn blank() -> (r: JobRecord)
        ensures
            r@ == blank_job(),
    {
        let acls: Vec<String> = Vec::new();
        let additional_sids: Vec<String> = Vec::new();
        proof {
            assert(texts(acls@) =~= Seq::<Seq<char>>::empty());
            assert(texts(additional_sids@) =~= Seq::<Seq<char>>::empty());
        }
        JobRecord {
            job_id: String::new(),
            file_id: String::new(),
            owner_sid: String::new(),
            created: 0,
            modified: 0,
            completed: 0,
            expiration: 0,
            job_name: String::new(),
            job_description: String::new(),
            job_command: String::new(),
            job_arguments: String::new(),
            error_count: 0,
            job_type: 0,
            job_state: 0,
            priority: 0,
            flags: 0,
            http_method: String::new(),
            target_path: String::new(),
            timeout: 0,
            retry_delay: 0,
            transient_error_count: 0,
            acls,
            additional_sids,
        }
    }

    /// A copy of the job.
    pub fn duplicate(&self) -> (r: JobRecord)
        ensures
            r@ == self@,
    {
        JobRecord {
            job_id: self.job_id.clone(),
            file_id: self.file_id.clone(),
            owner_sid: self.owner_sid.clone(),
            created: self.created,
            modified: self.modified,
            completed: self.completed,
            expiration: self.expiration,
            job_name: self.job_name.clone(),
            job_description: self.job_description.clone(),
            job_command: self.job_command.clone(),
            job_arguments: self.job_arguments.clone(),
            error_count: self.error_count,
            job_type: self.job_type,
            job_state: self.job_state,
            priority: self.priority,
            flags: self.flags,
            http_method: self.http_method.clone(),
            target_path: self.target_path.clone(),
            timeout: self.timeout,
            retry_delay: self.retry_delay,
            transient_error_count: self.transient_error_count,
            acls: clone_texts(&self.acls),
            additional_sids: clone_texts(&self.additional_sids),
        }
    }
}

impl FileRecord {
    /// A file with every text empty and every number zero.
    pub fn blank() -> (r: FileRecord)
        ensures
            r@ == blank_file(),
    {
        FileRecord {
            file_id: String::new(),
            files_transferred: 0,
            download_bytes_size: 0,
            transfer_bytes_size: 0,
            full_path: String::new(),
            filename: String::new(),
            tmp_fullpath: String::new(),
            volume: String::new(),
            url: String::new(),
        }
    }

    /// A copy of the file.
    pub fn duplicate(&self) -> (r: FileRecord)
        ensures
            r@ == self@,
    {
        FileRecord {
            file_id: self.file_id.clone(),
            files_transferred: self.files_transferred,
            download_bytes_size: self.download_bytes_size,
            transfer_bytes_size: self.transfer_bytes_size,
            full_path: self.full_path.clone(),
            filename: self.filename.clone(),
            tmp_fullpath: self.tmp_fullpath.clone(),
            volume: self.volume.clone(),
            url: self.url.clone(),
        }
    }
}

/// The job whose body starts at `p`, with the position after it.
#[verifier::opaque]
pub open spec fn job_at(d: Seq<u8>, p: int) -> Option<(JobView, int)> {
    if p + 64 > d.len() {
        None
    } else {
        match texts_at(d, p + 64, 9) {
            None => None,
            Some((t, q)) => match text_list_at(d, q) {
                None => None,
                Some((acls, q2)) => match text_list_at(d, q2) {
                    None => None,
                    Some((sids, e)) => Some(
                        (
                            JobView {
                                job_id: t[0],
                                file_id: t[1],
                                owner_sid: t[2],
                                created: unix_seconds(u64_at(d, p + 32, Endian::Le)),
                                modified: unix_seconds(u64_at(d, p + 40, Endian::Le)),
                                completed: unix_seconds(u64_at(d, p + 48, Endian::Le)),
                                expiration: unix_seconds(u64_at(d, p + 56, Endian::Le)),
                                job_name: t[3],
                                job_description: t[4],
                                job_command: t[5],
                                job_arguments: t[6],
                                error_count: u32_at(d, p + 16, Endian::Le) as u32,
                                job_type: u32_at(d, p, Endian::Le) as u32,
                                job_state: u32_at(d, p + 4, Endian::Le) as u32,
                                priority: u32_at(d, p + 8, Endian::Le) as u32,
                                flags: u32_at(d, p + 12, Endian::Le) as u32,
                                http_method: t[7],
                                target_path: t[8],
                                timeout: u32_at(d, p + 24, Endian::Le) as u32,
                                retry_delay: u32_at(d, p + 28, Endian::Le) as u32,
                                transient_error_count: u32_at(d, p + 20, Endian::Le) as u32,
                                acls,
                                additional_sids: sids,
                            },
                            e,
                        ),
                    ),
                },
            },
        }
    }
}

/// The file whose body starts at `p`, with the position after it.
#[verifier::opaque]
pub open spec fn file_at(d: Seq<u8>, p: int) -> Option<(FileView, int)> {
    if p + 20 > d.len() {
        None
    } else {
        match texts_at(d, p + 20, 6) {
            None => None,
            Some((t, e)) => Some(
                (
                    FileView {
                        file_id: t[0],
                        files_transferred: u32_at(d, p, Endian::Le) as u32,
                        download_bytes_size: u64_at(d, p + 4, Endian::Le) as u64,
                        transfer_bytes_size: u64_at(d, p + 12, Endian::Le) as u64,
                        full_path: t[1],
                        filename: t[2],
                        tmp_fullpath: t[3],
                        volume: t[4],
                        url: t[5],
                    },
                    e,
                ),
            ),
        }
    }
}

/// The record at `p` begins with signature `sig`.
pub open spec fn signed_at(d: Seq<u8>, p: int, sig: u64) -> bool {
    p + 8 <= d.len() && u64_at(d, p, Endian::Le) == sig
}

/// The job stored at `p` under signature `sig`, with the position after it.
pub open spec fn signed_job_at(d: Seq<u8>, p: int, sig: u64) -> Option<(JobView, int)> {
    if signed_at(d, p, sig) {
        job_at(d, p + 8)
    } else {
        None
    }
}

/// The file stored at `p` under signature `sig`, with the position after it.
pub open spec fn signed_file_at(d: Seq<u8>, p: int, sig: u64) -> Option<(FileView, int)> {
    if signed_at(d, p, sig) {
        file_at(d, p + 8)
    } else {
        None
    }
}

/// Reads the job body at the cursor.
fn read_job_body<'a>(c: &ByteCursor<'a>) -> (r: Option<(JobRecord, ByteCursor<'a>)>)
    requires
        c.wf(),
    ensures
        r is Some <==> job_at(c.data@, c.pos as int) is Some,
        r matches Some((j, c2)) ==> {
            &&& c2.wf()
            &&& c2.data@ == c.data@
            &&& job_at(c.data@, c.pos as int) == Some((j@, c2.pos as int))
        },
{
    reveal(job_at);
    if c.remaining() < JOB_FIXED_LEN {
        return None;
    }
    let (job_type, c1) = c.read_u32(Endian::Le).unwrap();
    let (job_state, c1) = c1.read_u32(Endian::Le).unwrap();
    let (priority, c1) = c1.read_u32(Endian::Le).unwrap();
    let (flags, c1) = c1.read_u32(Endian::Le).unwrap();
    let (error_count, c1) = c1.read_u32(Endian::Le).unwrap();
    let (transient_error_count, c1) = c1.read_u32(Endian::Le).unwrap();
    let (timeout, c1) = c1.read_u32(Endian::Le).unwrap();
    let (retry_delay, c1) = c1.read_u32(Endian::Le).unwrap();
    let (created, c1) = c1.read_filetime().unwrap();
    let (modified, c1) = c1.read_filetime().unwrap();
    let (completed, c1) = c1.read_filetime().unwrap();
    let (expiration, c1) = c1.read_filetime().unwrap();
    let (t, c2) = match read_texts(&c1, 9) {
        Some(x) => x,
        None => return None,
    };
    proof {
        lemma_texts_at_len(c.data@, c1.pos as int, 9);
    }
    let (acls, c3) = match read_text_list(&c2) {
        Some(x) => x,
        None => return None,
    };
    let (additional_sids, c4) = match read_text_list(&c3) {
        Some(x) => x,
        None => return None,
    };
    let job = JobRecord {
        job_id: t[0].clone(),
        file_id: t[1].clone(),
        owner_sid: t[2].clone(),
        created,
        modified,
        completed,
        expiration,
        job_name: t[3].clone(),
        job_description: t[4].clone(),
        job_command: t[5].clone(),
        job_arguments: t[6].clone(),
        error_count,
        job_type,
        job_state,
        priority,
        flags,
        http_method: t[7].clone(),
        target_path: t[8].clone(),
        timeout,
        retry_delay,
        transient_error_count,
        acls,
        additional_sids,
    };
    proof {
        let v = job_at(c.data@, c.pos as int).unwrap().0;
        assert(job@ == v);
    }
    Some((job, c4))
}

/// Reads the file body at the cursor.
fn read_file_body<'a>(c: &ByteCursor<'a>) -> (r: Option<(FileRecord, ByteCursor<'a>)>)
    requires
        c.wf(),
    ensures
        r is Some <==> file_at(c.data@, c.pos as int) is Some,
        r matches Some((f, c2)) ==> {
            &&& c2.wf()
            &&& c2.data@ == c.data@
            &&& file_at(c.data@, c.pos as int) == Some((f@, c2.pos as int))
        },
{
    reveal(file_at);
    if c.remaining() < FILE_FIXED_LEN {
        return None;
    }
    let (files_transferred, c1) = c.read_u32(Endian::Le).unwrap();
    let (download_bytes_size, c1) = c1.read_u64(Endian::Le).unwrap();
    let (transfer_bytes_size, c1) = c1.read_u64(Endian::Le).unwrap();
    let (t, c2) = match read_texts(&c1, 6) {
        Some(x) => x,
        None => return None,
    };
    proof {
        lemma_texts_at_len(c.data@, c1.pos as int, 6);
    }
    let file = FileRecord {
        file_id: t[0].clone(),
        files_transferred,
        download_bytes_size,
        transfer_bytes_size,
        full_path: t[1].clone(),
        filename: t[2].clone(),
        tmp_fullpath: t[3].clone(),
        volume: t[4].clone(),
        url: t[5].clone(),
    };
    proof {
        let v = file_at(c.data@, c.pos as int).unwrap().0;
        assert(file@ == v);
    }
    Some((file, c2))
}

/// Whether the bytes at `pos` of `data` are the signature `sig`.
pub fn has_signature(data: &[u8], pos: usize, sig: u64) -> (r: bool)
    ensures
        r == signed_at(data@, pos as int, sig),
{
    match ByteCursor::at(data, pos) {
        Some(c) => match c.read_u64(Endian::Le) {
            Some((found, _)) => found == sig,
            None => false,
        },
        None => false,
    }
}

/// Decodes the job stored at `pos` of `data` under signature `sig`, with the position after it.
pub fn decode_job(data: &[u8], pos: usize, sig: u64) -> (r: Option<(JobRecord, usize)>)
    ensures
        r is Some <==> signed_job_at(data@, pos as int, sig) is Some,
        r matches Some((j, e)) ==> signed_job_at(data@, pos as int, sig) == Some((j@, e as int)),
{
    let c = match ByteCursor::at(data, pos) {
        Some(c) => c,
        None => return None,
    };
    let (found, body) = match c.read_u64(Endian::Le) {
        Some(x) => x,
        None => return None,
    };
    if found != sig {
        return None;
    }
    match read_job_body(&body) {
        Some((j, end)) => Some((j, end.pos)),
        None => None,
    }
}

/// Decodes the file stored at `pos` of `data` under signature `sig`, with the position after it.
pub fn decode_file(data: &[u8], pos: usize, sig: u64) -> (r: Option<(FileRecord, usize)>)
    ensures
        r is Some <==> signed_file_at(data@, pos as int, sig) is Some,
        r matches Some((f, e)) ==> signed_file_at(data@, pos as int, sig) == Some((f@, e as int)),
{
    let c = match ByteCursor::at(data, pos) {
        Some(c) => c,
        None => return None,
    };
    let (found, body) = match c.read_u64(Endian::Le) {
        Some(x) => x,
        None => return None,
    };
    if found != sig {
        return None;
    }
    match read_file_body(&body) {
        Some((f, end)) => Some((f, end.pos)),
        None => None,
    }
}

} // verus!
