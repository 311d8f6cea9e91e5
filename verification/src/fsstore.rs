//! A store that keeps each item in a file of its own under a folder: where
//! its files are, how its counter file advances, and what is read out of an
//! item's file.  Reading and writing the files is the program's part.
use vstd::prelude::*;
use crate::error::{MizeError, MizeResult, texts};
use crate::value::Cbor;
use crate::item::{ItemData, get_path_spec, raw_spec, item_data_get_path, get_raw_from_cbor};
use crate::id::MizeId;
use crate::text::{decimal, decimal_text, string_from_utf8, parse_unsigned, parse_unsigned_spec};
use vstd::utf8::{valid_utf8, decode_utf8};

verus! {

/// `name` under the folder `base`, as `Path::join` puts it for a relative
/// name: with a `/` between them unless `base` is empty or ends in `/`.
pub open spec fn join_path_spec(base: Seq<char>, name: Seq<char>) -> Seq<char> {
    if base.len() == 0 {
        name
    } else if base.last() == '/' {
        base + name
    } else {
        base + "/"@ + name
    }
}

/// `name` under the folder `base` (see `join_path_spec`).
pub fn join_path(base: &str, name: &str) -> (r: String)
    ensures
        r@ == join_path_spec(base@, name@),
{
    let n = base.unicode_len();
    if n == 0 {
        return name.to_owned();
    }
    let last = base.get_char(n - 1);
    let mut out = base.to_owned();
    if last != '/' {
        out.append("/");
    }
    out.append(name);
    out
}

/// A store in the folder `path`.
#[derive(Debug)]
pub struct FileStore {
    path: String,
}

/// What the contents of the counter file give: the id to hand out and the
/// contents to write back, the next number.  `None` where the contents are
/// not a decimal `u64` in UTF-8, or the numbers are used up.
pub open spec fn next_id_step_spec(contents: Seq<u8>) -> Option<(Seq<char>, Seq<char>)> {
    if !valid_utf8(contents) {
        None
    } else {
        match parse_unsigned_spec(decode_utf8(contents), u64::MAX as int) {
            Some(n) => if n < u64::MAX {
                Some((decimal(n as nat), decimal((n + 1) as nat)))
            } else {
                None
            },
            None => None,
        }
    }
}

/// The process number in the contents of a pid file, where they are a
/// decimal `u32` in UTF-8.
pub open spec fn pid_spec(contents: Seq<u8>) -> Option<u32> {
    if !valid_utf8(contents) {
        None
    } else {
        match parse_unsigned_spec(decode_utf8(contents), u32::MAX as int) {
            Some(n) => Some(n as u32),
            None => None,
        }
    }
}

/// Reads the process number in the contents of a pid file (see `pid_spec`).
pub fn pid_from_file(contents: Vec<u8>) -> (r: MizeResult<u32>)
    ensures
        match pid_spec(contents@) {
            Some(p) => r matches Ok(x) && x == p,
            None => r is Err,
        },
{
    let text = match string_from_utf8(contents) {
        Some(t) => t,
        None => {
            return Err(MizeError::code(109));
        },
    };
    match parse_unsigned(text.as_str(), 0xFFFF_FFFF) {
        Some(n) => Ok(n as u32),
        None => Err(MizeError::new().msg("Could not parse the contents of the pid file to u32")),
    }
}

impl FileStore {
    /// Opens the store in the folder `path`, unless the process `running_pid`
    /// that wrote the pid file still runs.
    pub fn new(path: &str, running_pid: Option<u32>) -> (r: MizeResult<FileStore>)
        ensures
            match running_pid {
                Some(_) => r is Err,
                None => r matches Ok(s) && s.path_view() == path@,
            },
    {
        match running_pid {
            Some(_) => Err(MizeError::new().msg("the MizeStore at that path is already opened by another process")),
            None => Ok(FileStore { path: path.to_owned() }),
        }
    }

    pub closed spec fn path_view(&self) -> Seq<char> {
        self.path@
    }

    /// The folder of the store.
    pub fn path(&self) -> (r: &str)
        ensures
            r@ == self.path_view(),
    {
        self.path.as_str()
    }

    /// The folder that holds the items' files.
    pub fn store_dir(&self) -> (r: String)
        ensures
            r@ == join_path_spec(self.path_view(), "store"@),
    {
        join_path(self.path.as_str(), "store")
    }

    /// The file of the item `id`: named by its store part in the folder of
    /// the items.
    pub fn item_file(&self, id: &MizeId) -> (r: String)
        requires
            id.wf(),
        ensures
            r@ == join_path_spec(join_path_spec(self.path_view(), "store"@), id@.path[0]),
    {
        let dir = self.store_dir();
        join_path(dir.as_str(), id.store_part())
    }

    /// The file that holds the next id to hand out.
    pub fn next_id_file(&self) -> (r: String)
        ensures
            r@ == join_path_spec(self.path_view(), "next_id"@),
    {
        join_path(self.path.as_str(), "next_id")
    }

    /// The file that holds the number of the process that opened the store.
    pub fn pid_file(&self) -> (r: String)
        ensures
            r@ == join_path_spec(self.path_view(), "pid"@),
    {
        join_path(self.path.as_str(), "pid")
    }

    /// Advances the counter whose file holds `contents` (see
    /// `next_id_step_spec`): the id to hand out, and what to write back.
    pub fn next_id_step(&self, contents: Vec<u8>) -> (r: MizeResult<(String, String)>)
        ensures
            match next_id_step_spec(contents@) {
                Some((id, next)) => r matches Ok((a, b)) && a@ == id && b@ == next,
                None => r is Err,
            },
    {
        let text = match string_from_utf8(contents) {
            Some(t) => t,
            None => {
                return Err(MizeError::code(109));
            },
        };
        let n = match parse_unsigned(text.as_str(), 0xFFFF_FFFF_FFFF_FFFF) {
            Some(n) => n as u64,
            None => {
                return Err(MizeError::new().msg("could not parse next_id to u64"));
            },
        };
        if n == u64::MAX {
            return Err(MizeError::new().msg("the FileStore has no ids left"));
        }
        Ok((decimal_text(n), decimal_text(n + 1)))
    }

    /// The data at `id`, whose item's file holds `stored`: the data at the
    /// rest of the path.
    pub fn get_value_data_full(&self, id: &MizeId, stored: &ItemData) -> (r: MizeResult<ItemData>)
        requires
            id.wf(),
        ensures
            match get_path_spec(stored@, id@.path.skip(1)) {
                Some(d) => r matches Ok(x) && x@ == d,
                None => r is Err,
            },
    {
        match item_data_get_path(&stored.0, id.after_store_part()) {
            Ok(v) => Ok(ItemData(v)),
            Err(e) => Err(e),
        }
    }

    /// The raw bytes at `id`, whose item's file holds `stored` (see `raw_spec`).
    pub fn get_value_raw(&self, id: &MizeId, stored: &ItemData) -> (r: MizeResult<Vec<u8>>)
        requires
            id.wf(),
        ensures
            match raw_spec(stored@, id@.path.skip(1)) {
                Some(b) => r matches Ok(x) && x@ == b,
                None => r is Err,
            },
    {
        let rest = id.after_store_part();
        get_raw_from_cbor(&stored.0, &rest)
    }

    /// This store keeps no links.
    pub fn get_links(&self, id: &MizeId) -> (r: MizeResult<Vec<MizeId>>)
        ensures
            r matches Ok(v) && v@.len() == 0,
    {
        Ok(Vec::new())
    }

    /// This store keeps no links.
    pub fn get_backlinks(&self, id: &MizeId) -> (r: MizeResult<Vec<MizeId>>)
        ensures
            r matches Ok(v) && v@.len() == 0,
    {
        Ok(Vec::new())
    }

    /// The first key to walk the store from.
    pub fn first_id(&self) -> (r: MizeResult<String>)
        ensures
            r matches Ok(s) && s@ == "0"@,
    {
        Ok(String::from_str("0"))
    }
}

} // verus!
