//! A faceted virtual file system: named selector sets are bound, one path
//! token at a time, against a catalog of labelled objects, and the outcome is
//! rendered as directory entries.

use vstd::prelude::*;

pub mod text;
pub mod clock;
pub mod labels;
pub mod selector;
pub mod selector_set;
pub mod mem_selector_set;
pub mod store;
pub mod catalog;
pub mod kvfile;
pub mod mem_kvfile;
pub mod path;
pub mod entry;
pub mod fs;
pub mod label_manager;
pub mod label_selector;
pub mod storage_error;
pub mod task;
pub mod comic;
pub mod scraper;

verus! {

/// Twice the given number.
pub fn double(v: &u32) -> (r: u32)
    requires
        2 * *v <= u32::MAX,
    ensures
        r == 2 * *v,
{
    *v * 2
}

} // verus!
