//! What an instance on a system with files works out before it touches them:
//! its configuration from the command line, where its store is, and where
//! modules are fetched from and loaded.
use vstd::prelude::*;
use crate::error::{MizeError, MizeResult};
use crate::value::Cbor;
use crate::item::{ItemData, data_from_string, data_from_string_spec, merge_spec};

verus! {

/// The configuration from a config file's data and a config string, where
/// given: both merged, in this order, into `Null`.
pub open spec fn config_spec(file: Option<Cbor>, text: Option<Seq<char>>) -> Option<Cbor> {
    let base = match file {
        Some(f) => merge_spec(Cbor::Null, f),
        None => Cbor::Null,
    };
    match text {
        Some(t) => match data_from_string_spec(t) {
            Some(d) => Some(merge_spec(base, d)),
            None => None,
        },
        None => Some(base),
    }
}

/// The configuration given on the command line: the data of `--config-file`
/// and the string of `--config` (see `config_spec`).
pub fn config_from_parts(file: Option<ItemData>, text: Option<String>) -> (r: MizeResult<ItemData>)
    ensures
        match config_spec(
            match file {
                Some(f) => Some(f@),
                None => None,
            },
            match text {
                Some(t) => Some(t@),
                None => None,
            },
        ) {
            Some(c) => r matches Ok(d) && d@ == c,
            None => r is Err,
        },
{
    let mut config = ItemData::new();
    match file {
        Some(f) => config.merge(f),
        None => {},
    }
    match text {
        Some(t) => match data_from_string(t) {
            Ok(d) => config.merge(d),
            Err(e) => {
                return Err(e);
            },
        },
        None => {},
    }
    Ok(config)
}

/// Where the store is by default: `.mize` in the home folder, which must not
/// be empty.
pub fn default_store_path(home_dir: &str) -> (r: MizeResult<String>)
    ensures
        match r {
            Ok(p) => home_dir@.len() > 0 && p@ == home_dir@ + "/.mize"@,
            Err(_) => home_dir@.len() == 0,
        },
{
    if home_dir.unicode_len() == 0 {
        return Err(MizeError::new().msg("env var $HOME empty"));
    }
    let mut p = home_dir.to_owned();
    p.append("/.mize");
    Ok(p)
}

/// `s` with every `from` replaced by `to`.
pub open spec fn replace_char_spec(s: Seq<char>, from: char, to: char) -> Seq<char> {
    s.map_values(|c: char| if c == from { to } else { c })
}

/// The configuration item that names the folder of a module's build:
/// `self/config/module_dir/` and the module's name with its dots made `/`.
pub fn module_dir_config_id(module_name: &str) -> (r: String)
    ensures
        r@ == "self/config/module_dir/"@ + replace_char_spec(module_name@, '.', '/'),
{
    let cs = crate::text::chars_of(module_name);
    let mut out: Vec<char> = Vec::new();
    let mut i: usize = 0;
    while i < cs.len()
        invariant
            i <= cs@.len(),
            cs@ == module_name@,
            out@ == replace_char_spec(cs@.take(i as int), '.', '/'),
        decreases cs@.len() - i,
    {
        let c = cs[i];
        out.push(if c == '.' { '/' } else { c });
        i = i + 1;
        assert(out@ =~= replace_char_spec(cs@.take(i as int), '.', '/'));
    }
    assert(cs@.take(cs@.len() as int) =~= cs@);
    let mut s = String::from_str("self/config/module_dir/");
    let tail = crate::text::string_from_chars(out.as_slice());
    s.append(tail.as_str());
    s
}

/// Where the archive of a module build is downloaded from:
/// `http://<url>/mize/dist/<hash>-<name>.tar.gz`.
pub fn module_archive_url(module_url: &str, module_hash: &str, module_name: &str) -> (r: String)
    ensures
        r@ == "http://"@ + module_url@ + "/mize/dist/"@ + module_hash@ + "-"@ + module_name@
            + ".tar.gz"@,
{
    let mut s = String::from_str("http://");
    s.append(module_url);
    s.append("/mize/dist/");
    s.append(module_hash);
    s.append("-");
    s.append(module_name);
    s.append(".tar.gz");
    s
}

/// Where the downloaded archive of a module build is kept until it is
/// unpacked: `<store>/<hash>.tar.gz`.
pub fn module_archive_path(store_path: &str, module_hash: &str) -> (r: String)
    ensures
        r@ == store_path@ + "/"@ + module_hash@ + ".tar.gz"@,
{
    let mut s = store_path.to_owned();
    s.append("/");
    s.append(module_hash);
    s.append(".tar.gz");
    s
}

/// The folder a module build is unpacked into: `<store>/modules/<hash>`.
pub fn module_build_dir(store_path: &str, module_hash: &str) -> (r: String)
    ensures
        r@ == store_path@ + "/modules/"@ + module_hash@,
{
    let mut s = store_path.to_owned();
    s.append("/modules/");
    s.append(module_hash);
    s
}

/// The library of a module in its build folder:
/// `<path>/lib/libmize_module_<name>.so`.
pub fn module_library_path(path: &str, module_name: &str) -> (r: String)
    ensures
        r@ == path@ + "/lib/libmize_module_"@ + module_name@ + ".so"@,
{
    let mut s = path.to_owned();
    s.append("/lib/libmize_module_");
    s.append(module_name);
    s.append(".so");
    s
}

/// The symbol a module's library hands the module out by:
/// `get_mize_module_<name>`.
pub fn module_symbol(module_name: &str) -> (r: String)
    ensures
        r@ == "get_mize_module_"@ + module_name@,
{
    let mut s = String::from_str("get_mize_module_");
    s.append(module_name);
    s
}

} // verus!
