//! Arguments of the scripting runtime's application-compatibility database collectors.
//!
//! A script asks for the database of the system drive, or of another drive that it names
//! by a string whose first character is the drive letter.

use vstd::prelude::*;
use vstd::string::StrSliceExecFns;

verus! {

/// Which drive to collect the database from.
#[derive(Clone, Copy, Debug, PartialEq, Eq)]
pub struct ShimdbOptions {
    /// The drive letter, or `None` for the system drive.
    pub alt_drive: Option<char>,
}

/// Why a collector called from a script gave nothing.
#[derive(Clone, Copy, Debug, PartialEq, Eq)]
pub enum RuntimeError {
    ExecuteScript,
}

/// Options for the database of the system drive.
pub fn shimdb_options() -> (r: ShimdbOptions)
    ensures
        r.alt_drive is None,
{
    ShimdbOptions { alt_drive: None }
}

/// Options for the database of the drive named by the first character of `drive`; an
/// empty string names no drive and is refused.
pub fn alt_shimdb_options(drive: &str) -> (r: Result<ShimdbOptions, RuntimeError>)
    ensures
        drive@.len() == 0 ==> r == Err::<ShimdbOptions, RuntimeError>(RuntimeError::ExecuteScript),
        drive@.len() > 0 ==> r == Ok::<ShimdbOptions, RuntimeError>(
            ShimdbOptions { alt_drive: Some(drive@[0]) },
        ),
{
    if drive.unicode_len() == 0 {
        return Err(RuntimeError::ExecuteScript);
    }
    let drive_char = drive.get_char(0);
    Ok(ShimdbOptions { alt_drive: Some(drive_char) })
}

} // verus!
