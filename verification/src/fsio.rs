//! Trusted filesystem probes. What is on disk can change between two calls,
//! so neither function promises anything about its outcome; callers state
//! what holds whatever came back.

use vstd::prelude::*;

verus! {

/// Relies on `fs_err::read`: the bytes of the file at `path`, or `None` when
/// it cannot be opened or read.
#[verifier::external_body]
pub(crate) fn read_file(path: &Vec<u8>) -> (r: Option<Vec<u8>>) {
    let path_str = String::from_utf8_lossy(path.as_slice()).into_owned();
    match fs_err::read(&path_str) {
        Ok(content) => Some(content),
        Err(_) => None,
    }
}

/// Relies on `fs_err::metadata`: whether `file_path`, taken relative to
/// `root_directory`, names an existing filesystem entry.
#[verifier::external_body]
pub fn file_exists_in_directory(file_path: &Vec<u8>, root_directory: &Vec<u8>) -> (r: bool) {
    let joined = format!(
        "{}/{}",
        String::from_utf8_lossy(root_directory.as_slice()),
        String::from_utf8_lossy(file_path.as_slice()),
    );
    fs_err::metadata(&joined).is_ok()
}

} // verus!
