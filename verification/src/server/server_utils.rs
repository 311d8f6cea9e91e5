//! Tools of the server for its data files.
use vstd::prelude::*;

verus! {

/// A field of an item in the data files: its key and where its data is.
#[derive(Debug)]
pub struct Fields {
    key: u64,
    data: u64,
}

/// The index of the data files, at a commit.
#[derive(Debug)]
pub struct Index {
    commit_number: u64,
}

/// Imports items from the paths given; nothing is imported yet.
pub fn import(args: Vec<String>) {
}

/// Updates field `key` of item `id` with `update_string`; nothing is
/// updated yet.
pub fn update_item(id: u64, key: String, update_string: String) {
}

} // verus!
