//! Bookkeeping records about stored files, as listed at the boundary.

use vstd::prelude::*;

verus! {

/// A row of file bookkeeping: a running number, the file's name and type,
/// its size, and when it was uploaded.
pub struct FileMetadata {
    pub id: i32,
    pub filename: String,
    pub file_type: String,
    pub file_size: u64,
    pub uploaded_at: u64,
}

} // verus!
