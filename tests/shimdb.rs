use artemis_core::shimdb::{alt_shimdb_options, shimdb_options, RuntimeError, ShimdbOptions};

#[test]
fn test_get_shimdb() {
    let options = shimdb_options();
    assert_eq!(options, ShimdbOptions { alt_drive: None });
}

#[test]
fn test_get_alt_shimdb() {
    let options = alt_shimdb_options("C").unwrap();
    assert_eq!(options.alt_drive, Some('C'));
}

#[test]
fn alt_drive_is_first_character() {
    assert_eq!(alt_shimdb_options("D:\\").unwrap().alt_drive, Some('D'));
}

#[test]
fn empty_alt_drive_is_refused() {
    assert_eq!(alt_shimdb_options(""), Err(RuntimeError::ExecuteScript));
}
