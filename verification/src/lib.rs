//! Encryption and packaging core of a local vault: password-based key
//! derivation, authenticated encryption, and a container of named entries.

use vstd::prelude::*;

pub mod archive_job;
pub mod archive_runs;
pub mod crypto_handler;
pub mod error;
pub mod io_helper;
pub mod meta_structure;
pub mod primitives;
pub mod text;
pub mod zip_store;

verus! {

/// Sum of two sizes.
pub fn add(left: usize, right: usize) -> (sum: usize)
    requires
        left + right <= usize::MAX,
    ensures
        sum == left + right,
{
    left + right
}

} // verus!
