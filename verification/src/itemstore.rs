//! An item store in a folder, which counts its items in a file: how the
//! files of the folder are read when the store is opened.
use vstd::prelude::*;
use crate::error::{MizeError, MizeResult};
use crate::text::{decimal, decimal_text, string_from_utf8, parse_unsigned, parse_unsigned_spec};
use crate::fsstore::{join_path, join_path_spec};
use vstd::utf8::{valid_utf8, decode_utf8};
use std::collections::HashMap;
use crate::value::{Cbor, CborValue};

verus! {

/// The number the first item of a new store gets.
pub const DEFAULT_NEXT_ID: u64 = 100;

/// A store in a folder, and the number its next item gets.
#[derive(Debug)]
pub struct FolderItemstore {
    path: String,
    next_id: u64,
}

/// What the counter file gives: the default where there is none, else its
/// number, which must be a decimal `u64` in UTF-8.
pub open spec fn next_id_from_spec(contents: Option<Seq<u8>>) -> Option<u64> {
    match contents {
        None => Some(DEFAULT_NEXT_ID),
        Some(b) => if valid_utf8(b) {
            match parse_unsigned_spec(decode_utf8(b), u64::MAX as int) {
                Some(n) => Some(n as u64),
                None => None,
            }
        } else {
            None
        },
    }
}

/// The number the next item gets, from the contents of the counter file,
/// where there is one (see `next_id_from_spec`).
pub fn next_id_from(contents: Option<Vec<u8>>) -> (r: MizeResult<u64>)
    ensures
        match next_id_from_spec(
            match contents {
                Some(b) => Some(b@),
                None => None,
            },
        ) {
            Some(n) => r matches Ok(x) && x == n,
            None => r is Err,
        },
{
    match contents {
        None => Ok(DEFAULT_NEXT_ID),
        Some(b) => {
            let text = match string_from_utf8(b) {
                Some(t) => t,
                None => {
                    return Err(MizeError::code(109));
                },
            };
            match parse_unsigned(text.as_str(), 0xFFFF_FFFF_FFFF_FFFF) {
                Some(n) => Ok(n as u64),
                None => Err(MizeError::new().msg("Could not parse contents of store_next_id into u64")),
            }
        },
    }
}

/// Whether a store whose open-file names a process may be opened: not while
/// that process runs.
pub fn may_open(pid_running: bool) -> (r: MizeResult<()>)
    ensures
        r is Ok <==> !pid_running,
{
    if pid_running {
        Err(MizeError::new().msg("the store is already open by another process"))
    } else {
        Ok(())
    }
}

/// Where the process `pid` shows while it runs.
pub fn proc_path(pid: u32) -> (r: String)
    ensures
        r@ == "/proc/"@ + decimal(pid as nat),
{
    let mut s = String::from_str("/proc/");
    let d = decimal_text(pid as u64);
    s.append(d.as_str());
    s
}

impl FolderItemstore {
    pub fn new(path: &str, next_id: u64) -> (r: FolderItemstore)
        ensures
            r.path_view() == path@,
            r.next_id() == next_id,
    {
        FolderItemstore { path: path.to_owned(), next_id }
    }

    pub closed spec fn path_view(&self) -> Seq<char> {
        self.path@
    }

    pub closed spec fn next_id(&self) -> u64 {
        self.next_id
    }

    /// The file that marks the store as open.
    pub fn store_open_file(&self) -> (r: String)
        ensures
            r@ == join_path_spec(self.path_view(), "store_open"@),
    {
        join_path(self.path.as_str(), "store_open")
    }

    /// The file that holds the next number.
    pub fn next_id_file(&self) -> (r: String)
        ensures
            r@ == join_path_spec(self.path_view(), "store_next_id"@),
    {
        join_path(self.path.as_str(), "store_next_id")
    }

    /// What the counter file is written with: the next number in decimal.
    pub fn next_id_text(&self) -> (r: String)
        ensures
            r@ == decimal(self.next_id() as nat),
    {
        decimal_text(self.next_id)
    }
}


/// A store that keeps its items in memory, keyed by their number, and the
/// number of the last item it created.
#[derive(Debug)]
pub struct MemoryItemstore {
    inner: HashMap<u64, CborValue>,
    next_id: u64,
}

/// The model of a store in memory: the data of each item, and the number of
/// the last item created.
pub struct MemoryView {
    pub items: Map<u64, Cbor>,
    pub next_id: u64,
}

impl View for MemoryItemstore {
    type V = MemoryView;

    closed spec fn view(&self) -> MemoryView {
        MemoryView { items: self.inner@.map_values(|v: CborValue| v@), next_id: self.next_id }
    }
}

/// A new store in memory, with no items; its first item gets the number 101.
pub fn new_memory_store() -> (r: MizeResult<MemoryItemstore>)
    ensures
        r matches Ok(s) && s@.items == Map::<u64, Cbor>::empty() && s@.next_id == DEFAULT_NEXT_ID,
{
    broadcast use vstd::std_specs::hash::group_hash_axioms;

    let s = MemoryItemstore { inner: HashMap::new(), next_id: DEFAULT_NEXT_ID };
    assert(s@.items =~= Map::<u64, Cbor>::empty());
    Ok(s)
}

impl MemoryItemstore {
    /// The data of item `id`; an error where the store has no such item.
    pub fn get_item(&self, id: u64) -> (r: MizeResult<CborValue>)
        ensures
            match r {
                Ok(d) => self@.items.contains_key(id) && d@ == self@.items[id],
                Err(_) => !self@.items.contains_key(id),
            },
    {
        broadcast use vstd::std_specs::hash::group_hash_axioms;

        match self.inner.get(&id) {
            Some(d) => Ok(d.copy()),
            None => Err(MizeError::new().msg("there was no item with that id in this store")),
        }
    }

    /// Stores `data` as item `id`.  The data is stored either way, but where
    /// the store had no item `id` before, the result is an error.
    pub fn set_item(&mut self, id: u64, data: CborValue) -> (r: MizeResult<()>)
        ensures
            final(self)@.items == old(self)@.items.insert(id, data@),
            final(self)@.next_id == old(self)@.next_id,
            r is Ok <==> old(self)@.items.contains_key(id),
    {
        broadcast use vstd::std_specs::hash::group_hash_axioms;

        let ghost before = self.inner@;
        let ghost dv = data@;
        let previous = self.inner.insert(id, data);
        assert(self@.items =~= before.map_values(|v: CborValue| v@).insert(id, dv));
        match previous {
            Some(_) => Ok(()),
            None => Err(MizeError::new().msg("Could not set an item in a MemoryStore")),
        }
    }

    /// Creates an item: the number after the last one created.
    pub fn create_item(&mut self) -> (r: MizeResult<u64>)
        ensures
            match r {
                Ok(n) => old(self)@.next_id < u64::MAX && n == old(self)@.next_id + 1 && final(self)@
                    == (MemoryView { next_id: n, ..old(self)@ }),
                Err(_) => old(self)@.next_id == u64::MAX && final(self)@ == old(self)@,
            },
    {
        if self.next_id == u64::MAX {
            return Err(MizeError::new().msg("the MemoryStore has no ids left"));
        }
        self.next_id = self.next_id + 1;
        Ok(self.next_id)
    }

    /// Closes the store; nothing is left to do.
    pub fn close(&self) -> (r: MizeResult<()>)
        ensures
            r is Ok,
    {
        Ok(())
    }

    /// The number of the last item created.
    pub fn next_id(&self) -> (r: u64)
        ensures
            r == self@.next_id,
    {
        self.next_id
    }

    /// Whether the store has item `id`.
    pub fn has_item(&self, id: u64) -> (r: MizeResult<bool>)
        ensures
            r matches Ok(b) && b == self@.items.contains_key(id),
    {
        broadcast use vstd::std_specs::hash::group_hash_axioms;

        Ok(self.inner.contains_key(&id))
    }
}

} // verus!
