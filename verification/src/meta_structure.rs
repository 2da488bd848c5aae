//! Records that tie a logical name to the container file that holds it.

use vstd::prelude::*;

verus! {

/// The whole metadata table.
#[derive(Debug)]
pub struct EntriesMeta {
    pub entry: Vec<EntryMeta>,
}

/// One record: a logical name and the file name of its container.
#[derive(Debug)]
pub struct EntryMeta {
    pub cab_name: String,
    pub cab_file_name: String,
}

} // verus!
