use artemis_core::bits::{legacy_bits, parse_ese_bits, parse_legacy_bits, BitsError, BitsSchema};
use artemis_core::carve::parse_carve;
use artemis_core::join::{join_records, lookup_username};
use artemis_core::legacy::get_legacy_jobs;
use artemis_core::records::{
    decode_file, decode_job, FileRecord, JobRecord, LEGACY_FILE_SIGNATURE, LEGACY_JOB_SIGNATURE,
    TABLE_FILE_SIGNATURE, TABLE_JOB_SIGNATURE,
};
use artemis_core::tables::{get_files, get_jobs, Cell, CellValue, Table};

// 2020-09-06 00:00:00 UTC as a FILETIME.
const CREATED_FILETIME: u64 = 132438240000000000;
const CREATED_UNIX: i64 = 1599350400;

fn put_u32(out: &mut Vec<u8>, v: u32) {
    out.extend_from_slice(&v.to_le_bytes());
}

fn put_u64(out: &mut Vec<u8>, v: u64) {
    out.extend_from_slice(&v.to_le_bytes());
}

fn put_text(out: &mut Vec<u8>, s: &str) {
    let units: Vec<u16> = s.encode_utf16().collect();
    put_u32(out, units.len() as u32);
    for u in units {
        out.extend_from_slice(&u.to_le_bytes());
    }
}

fn job_bytes(sig: u64, job_id: &str, file_id: &str, owner: &str) -> Vec<u8> {
    let mut out = Vec::new();
    put_u64(&mut out, sig);
    for v in 1..=8u32 {
        put_u32(&mut out, v);
    }
    put_u64(&mut out, CREATED_FILETIME);
    put_u64(&mut out, CREATED_FILETIME + 10_000_000);
    put_u64(&mut out, CREATED_FILETIME + 20_000_000);
    put_u64(&mut out, CREATED_FILETIME + 30_000_000);
    for t in [
        job_id,
        file_id,
        owner,
        "update",
        "downloads an update",
        "C:\\Windows\\notify.exe",
        "/quiet",
        "GET",
        "C:\\Temp\\update.msi",
    ] {
        put_text(&mut out, t);
    }
    put_u32(&mut out, 1);
    put_text(&mut out, "D:(A;;GA;;;SY)");
    put_u32(&mut out, 0);
    out
}

fn file_bytes(sig: u64, file_id: &str, url: &str) -> Vec<u8> {
    let mut out = Vec::new();
    put_u64(&mut out, sig);
    put_u32(&mut out, 1);
    put_u64(&mut out, 2048);
    put_u64(&mut out, 1024);
    for t in [
        file_id,
        "C:\\Temp\\update.msi",
        "update.msi",
        "C:\\Temp\\BIT1.tmp",
        "\\\\?\\Volume{1}",
        url,
    ] {
        put_text(&mut out, t);
    }
    out
}

fn blob_row(bytes: Vec<u8>) -> Vec<Cell> {
    vec![
        Cell { column: "Id".to_string(), value: CellValue::Text("row".to_string()) },
        Cell { column: "Blob".to_string(), value: CellValue::Binary(bytes) },
    ]
}

fn job(job_id: &str, file_id: &str) -> JobRecord {
    let bytes = job_bytes(TABLE_JOB_SIGNATURE, job_id, file_id, "S-1-5-18");
    decode_job(&bytes, 0, TABLE_JOB_SIGNATURE).unwrap().0
}

fn file(file_id: &str, url: &str) -> FileRecord {
    let bytes = file_bytes(TABLE_FILE_SIGNATURE, file_id, url);
    decode_file(&bytes, 0, TABLE_FILE_SIGNATURE).unwrap().0
}

fn users() -> Vec<(String, String)> {
    vec![("S-1-5-18".to_string(), "SYSTEM".to_string())]
}

#[test]
fn test_parse_carve() {
    let mut data = vec![0xAA_u8; 37];
    for i in 0..86 {
        data.extend(job_bytes(TABLE_JOB_SIGNATURE, &format!("job{i}"), &format!("file{i}"), "S-1-5-18"));
        if i % 2 == 0 && i / 2 < 41 {
            data.extend(file_bytes(TABLE_FILE_SIGNATURE, &format!("file{i}"), "https://example.com/a"));
        }
        data.extend([0u8, 1, 2, 3, 4]);
    }
    let (_, jobs, files) = parse_carve(&data, false);
    assert_eq!(jobs.len(), 86);
    assert_eq!(files.len(), 41);
}

#[test]
fn test_bits() {
    let job_blob = job_bytes(TABLE_JOB_SIGNATURE, "job1", "file1", "S-1-5-18");
    let file_blob = file_bytes(TABLE_FILE_SIGNATURE, "file1", "https://example.com/a");
    let mut raw = vec![0u8; 16];
    raw.extend(job_blob.clone());
    raw.extend(file_blob.clone());
    let tables = vec![
        Table { name: "Jobs".to_string(), rows: vec![blob_row(job_blob)] },
        Table { name: "Files".to_string(), rows: vec![blob_row(file_blob)] },
    ];
    let results = parse_ese_bits(&tables, &BitsSchema::standard(), &users(), Some(&raw));
    assert!(results.is_ok());
    let results = results.unwrap();
    assert_eq!(results.bits.len(), 1);
    assert_eq!(results.bits[0].username, "SYSTEM");
    assert_eq!(results.bits[0].file.url, "https://example.com/a");
    assert!(!results.bits[0].carved);
    assert_eq!(results.carved_jobs.len(), 1);
    assert_eq!(results.carved_files.len(), 1);
}

#[test]
fn test_parse_ese_bits() {
    let tables = vec![
        Table {
            name: "Jobs".to_string(),
            rows: vec![
                blob_row(job_bytes(TABLE_JOB_SIGNATURE, "job1", "file1", "S-1-5-18")),
                blob_row(job_bytes(TABLE_JOB_SIGNATURE, "job2", "file9", "S-1-5-18")),
            ],
        },
        Table {
            name: "Files".to_string(),
            rows: vec![blob_row(file_bytes(TABLE_FILE_SIGNATURE, "file1", "https://example.com/a"))],
        },
    ];
    let results = parse_ese_bits(&tables, &BitsSchema::standard(), &users(), None).unwrap();
    assert_eq!(results.bits.len(), 1);
}

#[test]
fn test_parse_legacy_bits() {
    let results = parse_legacy_bits(&Vec::new(), &users(), false);
    assert_eq!(results.bits.is_empty(), true);
}

#[test]
fn test_legacy_bits() {
    let mut data = job_bytes(LEGACY_JOB_SIGNATURE, "job1", "file1", "S-1-5-18");
    data.extend(file_bytes(LEGACY_FILE_SIGNATURE, "file1", "https://example.com/a"));
    let results = legacy_bits(&data, &users(), false);
    assert_eq!(results.bits.len(), 1);
}

#[test]
fn decoded_job_fields_follow_the_layout() {
    let j = job("job1", "file1");
    assert_eq!(j.job_id, "job1");
    assert_eq!(j.file_id, "file1");
    assert_eq!(j.owner_sid, "S-1-5-18");
    assert_eq!(j.job_type, 1);
    assert_eq!(j.job_state, 2);
    assert_eq!(j.priority, 3);
    assert_eq!(j.flags, 4);
    assert_eq!(j.error_count, 5);
    assert_eq!(j.transient_error_count, 6);
    assert_eq!(j.timeout, 7);
    assert_eq!(j.retry_delay, 8);
    assert_eq!(j.created, CREATED_UNIX);
    assert_eq!(j.modified, CREATED_UNIX + 1);
    assert_eq!(j.completed, CREATED_UNIX + 2);
    assert_eq!(j.expiration, CREATED_UNIX + 3);
    assert_eq!(j.job_command, "C:\\Windows\\notify.exe");
    assert_eq!(j.target_path, "C:\\Temp\\update.msi");
    assert_eq!(j.acls, vec!["D:(A;;GA;;;SY)".to_string()]);
    assert!(j.additional_sids.is_empty());
}

#[test]
fn decoded_file_fields_follow_the_layout() {
    let bytes = file_bytes(TABLE_FILE_SIGNATURE, "file1", "https://example.com/a");
    let (f, end) = decode_file(&bytes, 0, TABLE_FILE_SIGNATURE).unwrap();
    assert_eq!(end, bytes.len());
    assert_eq!(f.file_id, "file1");
    assert_eq!(f.files_transferred, 1);
    assert_eq!(f.download_bytes_size, 2048);
    assert_eq!(f.transfer_bytes_size, 1024);
    assert_eq!(f.filename, "update.msi");
    assert_eq!(f.url, "https://example.com/a");
}

#[test]
fn decoding_refuses_wrong_signature_and_truncation() {
    let bytes = job_bytes(LEGACY_JOB_SIGNATURE, "job1", "file1", "S-1-5-18");
    assert!(decode_job(&bytes, 0, TABLE_JOB_SIGNATURE).is_none());
    assert!(decode_job(&bytes[..bytes.len() - 1], 0, LEGACY_JOB_SIGNATURE).is_none());
    assert!(decode_job(&bytes, bytes.len() + 5, LEGACY_JOB_SIGNATURE).is_none());
}

#[test]
fn join_pairs_every_job_with_every_matching_file() {
    let jobs = vec![job("a", "f1"), job("b", "f2"), job("c", "f1")];
    let files = vec![file("f1", "u1"), file("f3", "u3"), file("f1", "u2")];
    let merged = join_records(&jobs, &files, &users());
    let pairs: Vec<(String, String)> =
        merged.iter().map(|m| (m.job.job_id.clone(), m.file.url.clone())).collect();
    assert_eq!(
        pairs,
        vec![
            ("a".to_string(), "u1".to_string()),
            ("a".to_string(), "u2".to_string()),
            ("c".to_string(), "u1".to_string()),
            ("c".to_string(), "u2".to_string()),
        ]
    );
    assert!(merged.iter().all(|m| m.username == "SYSTEM" && !m.carved));
}

#[test]
fn join_without_counterparts_is_empty() {
    let jobs = vec![job("a", "f1")];
    let files = vec![file("f2", "u")];
    assert!(join_records(&jobs, &files, &users()).is_empty());
    assert!(join_records(&Vec::new(), &files, &users()).is_empty());
}

#[test]
fn unknown_owner_has_empty_username() {
    let sid = "S-1-5-21-1".to_string();
    assert_eq!(lookup_username(&users(), &sid), "");
    let mut more = users();
    more.push(("S-1-5-21-1".to_string(), "bob".to_string()));
    more.push(("S-1-5-21-1".to_string(), "alice".to_string()));
    assert_eq!(lookup_username(&more, &sid), "bob");
}

#[test]
fn missing_jobs_table_is_reported() {
    let tables = vec![Table { name: "Files".to_string(), rows: Vec::new() }];
    let r = parse_ese_bits(&tables, &BitsSchema::standard(), &users(), None);
    assert_eq!(r.unwrap_err(), BitsError::MissingJobs);
}

#[test]
fn missing_files_table_is_reported() {
    let tables = vec![Table {
        name: "Jobs".to_string(),
        rows: vec![blob_row(job_bytes(TABLE_JOB_SIGNATURE, "job1", "file1", "S-1-5-18"))],
    }];
    let r = parse_ese_bits(&tables, &BitsSchema::standard(), &users(), None);
    assert_eq!(r.unwrap_err(), BitsError::MissingFiles);
}

#[test]
fn structured_collection_appends_carved_records_unjoined() {
    let job_blob = job_bytes(TABLE_JOB_SIGNATURE, "job1", "file1", "S-1-5-18");
    let file_blob = file_bytes(TABLE_FILE_SIGNATURE, "file1", "https://example.com/a");
    let mut raw = vec![7u8; 11];
    raw.extend(job_blob.clone());
    raw.extend(job_bytes(TABLE_JOB_SIGNATURE, "old", "gone", "S-1-5-18"));
    raw.extend(file_blob.clone());
    let tables = vec![
        Table { name: "Jobs".to_string(), rows: vec![blob_row(job_blob)] },
        Table { name: "Files".to_string(), rows: vec![blob_row(file_blob)] },
    ];
    let r = parse_ese_bits(&tables, &BitsSchema::standard(), &users(), Some(&raw)).unwrap();
    assert_eq!(r.bits.len(), 1);
    assert_eq!(r.carved_jobs.len(), 2);
    assert_eq!(r.carved_files.len(), 1);
    assert_eq!(r.carved_jobs[1].job_id, "old");
}

#[test]
fn row_without_readable_blob_gives_blank_record() {
    let rows = vec![
        vec![Cell { column: "Blob".to_string(), value: CellValue::Text("not bytes".to_string()) }],
        vec![Cell { column: "Other".to_string(), value: CellValue::Integer(3) }],
        vec![Cell { column: "Blob".to_string(), value: CellValue::Binary(vec![1, 2, 3]) }],
        vec![Cell { column: "Blob".to_string(), value: CellValue::Null }],
        blob_row(job_bytes(TABLE_JOB_SIGNATURE, "job1", "file1", "S-1-5-18")),
    ];
    let column = "Blob".to_string();
    let jobs = get_jobs(&rows, &column);
    assert_eq!(jobs.len(), 5);
    for j in &jobs[..4] {
        assert_eq!(j.job_id, "");
        assert_eq!(j.created, 0);
        assert!(j.acls.is_empty());
    }
    assert_eq!(jobs[4].job_id, "job1");
    let files = get_files(&rows, &column);
    assert_eq!(files.len(), 5);
    assert!(files.iter().all(|f| f.file_id.is_empty() && f.download_bytes_size == 0));
}

#[test]
fn carving_damaged_buffer_gives_nothing() {
    let mut data = job_bytes(TABLE_JOB_SIGNATURE, "job1", "file1", "S-1-5-18");
    let cut = job_bytes(TABLE_JOB_SIGNATURE, "job2", "file2", "S-1-5-18");
    data.extend_from_slice(&cut[..cut.len() - 3]);
    let (bits, jobs, files) = parse_carve(&data, false);
    assert!(bits.is_empty() && jobs.is_empty() && files.is_empty());

    let mut bad_file = file_bytes(TABLE_FILE_SIGNATURE, "f", "u");
    bad_file.truncate(20);
    let (bits, jobs, files) = parse_carve(&bad_file, false);
    assert!(bits.is_empty() && jobs.is_empty() && files.is_empty());
}

#[test]
fn carving_empty_and_noise_buffers_gives_nothing() {
    let (bits, jobs, files) = parse_carve(&[], true);
    assert!(bits.is_empty() && jobs.is_empty() && files.is_empty());
    let noise: Vec<u8> = (0..500u32).map(|i| (i * 7 % 251) as u8).collect();
    let (bits, jobs, files) = parse_carve(&noise, false);
    assert!(bits.is_empty() && jobs.is_empty() && files.is_empty());
}

#[test]
fn carving_looks_only_for_the_chosen_generation() {
    let mut data = job_bytes(LEGACY_JOB_SIGNATURE, "job1", "file1", "S-1-5-18");
    data.extend(file_bytes(LEGACY_FILE_SIGNATURE, "file1", "u"));
    let (_, jobs, files) = parse_carve(&data, false);
    assert!(jobs.is_empty() && files.is_empty());
}

#[test]
fn legacy_carving_relates_a_directly_following_file() {
    let mut data = job_bytes(LEGACY_JOB_SIGNATURE, "job1", "file1", "S-1-5-18");
    data.extend(file_bytes(LEGACY_FILE_SIGNATURE, "file1", "u1"));
    data.extend(vec![9u8; 6]);
    data.extend(job_bytes(LEGACY_JOB_SIGNATURE, "job2", "file2", "S-1-5-18"));
    data.extend(file_bytes(LEGACY_FILE_SIGNATURE, "other", "u2"));
    let (bits, jobs, files) = parse_carve(&data, true);
    assert_eq!(jobs.len(), 2);
    assert_eq!(files.len(), 2);
    assert_eq!(bits.len(), 1);
    assert_eq!(bits[0].job.job_id, "job1");
    assert_eq!(bits[0].file.url, "u1");
    assert!(bits[0].carved);
    assert_eq!(bits[0].username, "");
}

#[test]
fn legacy_decoding_stops_at_first_unreadable_record() {
    let mut data = job_bytes(LEGACY_JOB_SIGNATURE, "job1", "file1", "S-1-5-18");
    data.extend(file_bytes(LEGACY_FILE_SIGNATURE, "file1", "u1"));
    data.extend([1u8, 2, 3, 4, 5, 6, 7, 8, 9]);
    data.extend(job_bytes(LEGACY_JOB_SIGNATURE, "job2", "file2", "S-1-5-18"));
    let (jobs, files) = get_legacy_jobs(&data);
    assert_eq!(jobs.len(), 1);
    assert_eq!(files.len(), 1);
    assert_eq!(jobs[0].job_id, "job1");
    let (jobs, files) = get_legacy_jobs(&[]);
    assert!(jobs.is_empty() && files.is_empty());
}

#[test]
fn legacy_collection_joins_and_merges_carved_records() {
    let mut data = job_bytes(LEGACY_JOB_SIGNATURE, "job1", "file1", "S-1-5-18");
    data.extend(file_bytes(LEGACY_FILE_SIGNATURE, "file1", "u1"));
    let plain = legacy_bits(&data, &users(), false);
    assert_eq!(plain.bits.len(), 1);
    assert_eq!(plain.bits[0].username, "SYSTEM");
    assert!(plain.carved_jobs.is_empty() && plain.carved_files.is_empty());
    let with_carving = legacy_bits(&data, &users(), true);
    assert_eq!(with_carving.bits.len(), 2);
    assert!(!with_carving.bits[0].carved);
    assert!(with_carving.bits[1].carved);
    assert_eq!(with_carving.bits[1].username, "SYSTEM");
    assert_eq!(with_carving.carved_jobs.len(), 1);
    assert_eq!(with_carving.carved_files.len(), 1);
}

#[test]
fn legacy_sources_are_collected_in_order() {
    let mut first = job_bytes(LEGACY_JOB_SIGNATURE, "job1", "file1", "S-1-5-18");
    first.extend(file_bytes(LEGACY_FILE_SIGNATURE, "file1", "u1"));
    let mut second = job_bytes(LEGACY_JOB_SIGNATURE, "job2", "file2", "S-1-5-18");
    second.extend(file_bytes(LEGACY_FILE_SIGNATURE, "file2", "u2"));
    let all = parse_legacy_bits(&vec![first, Vec::new(), second], &users(), false);
    let ids: Vec<String> = all.bits.iter().map(|b| b.job.job_id.clone()).collect();
    assert_eq!(ids, vec!["job1".to_string(), "job2".to_string()]);
    assert!(parse_legacy_bits(&Vec::new(), &users(), true).bits.is_empty());
}

#[test]
fn carving_twice_gives_the_same_records() {
    let mut data = job_bytes(LEGACY_JOB_SIGNATURE, "job1", "file1", "S-1-5-18");
    data.extend(file_bytes(LEGACY_FILE_SIGNATURE, "file1", "u1"));
    let a = parse_carve(&data, true);
    let b = parse_carve(&data, true);
    assert_eq!(format!("{a:?}"), format!("{b:?}"));
}
