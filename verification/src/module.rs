//! Modules that extend an instance, and the hash that names the build of a
//! module for a system.
use vstd::prelude::*;
use sha2::Digest;
use crate::error::{MizeError, MizeResult};
use crate::value::Cbor;
use crate::item::{ItemData, set_path_spec, merge_spec, sort_keys_spec, parse_spec};
use crate::instance::{Instance, Item};
use crate::updater::{Fetch, FoundSpec, lookup_spec, fetch_matches};
use crate::text::{split_spec, split_text};
use crate::log::{hex, hex_spec};

verus! {

broadcast use vstd::std_specs::vec::group_vec_axioms;

/// A module: code that is loaded into an instance and set up and torn down
/// with it.  The program's users implement it.
pub trait Module {
    fn init(&mut self, instance: &Instance) -> MizeResult<()>;

    fn exit(&mut self, instance: &Instance) -> MizeResult<()>;

    /// Runs the module's command line, where it has one; a module without
    /// one answers `None`.
    fn run_cli(&mut self, instance: &Instance, cmd_line: Vec<String>) -> (r: Option<MizeResult<()>>)
        default_ensures
            r is None,
    {
        None
    }
}

/// A module that does nothing.
#[derive(Debug)]
pub struct EmptyModule {}

impl Module for EmptyModule {
    fn init(&mut self, instance: &Instance) -> (r: MizeResult<()>)
        ensures
            r is Ok,
    {
        Ok(())
    }

    fn exit(&mut self, instance: &Instance) -> (r: MizeResult<()>)
        ensures
            r is Ok,
    {
        Ok(())
    }
}

/// The texts joined with nothing between them.
pub open spec fn concat_texts(v: Seq<Seq<char>>) -> Seq<char>
    decreases v.len(),
{
    if v.len() == 0 {
        Seq::empty()
    } else {
        concat_texts(v.drop_last()) + v.last()
    }
}

/// The selector of module `name`: `modName` is set to the name (parsed as
/// a value), or, for `cross.<system>.<rest>`, `system` to the system and
/// `modName` to the rest with its dots taken out; then `options` are merged
/// in and the keys sorted, so that the same selector gives the same text.
/// `None` where a cross name lacks a system or a module name, or the
/// selector is not a mapping.
pub open spec fn selector_spec(sel: Cbor, name: Seq<char>, options: Cbor) -> Option<Cbor> {
    let parts = split_spec(name, '.');
    let set = if parts[0] == "cross"@ {
        if parts.len() < 2 || concat_texts(parts.skip(2)).len() == 0 {
            None
        } else {
            match set_path_spec(sel, seq!["system"@], parse_spec(parts[1])) {
                Some(s1) => set_path_spec(s1, seq!["modName"@], Cbor::Text(concat_texts(parts.skip(2)))),
                None => None,
            }
        }
    } else {
        set_path_spec(sel, seq!["modName"@], parse_spec(name))
    };
    match set {
        Some(s) => Some(sort_keys_spec(merge_spec(s, options))),
        None => None,
    }
}

fn concat_from(parts: &Vec<String>, from: usize) -> (r: String)
    requires
        from <= parts@.len(),
    ensures
        r@ == concat_texts(crate::error::texts(parts@).skip(from as int)),
{
    let ghost t = crate::error::texts(parts@);
    let mut out = String::new();
    let mut i: usize = from;
    assert(t.skip(from as int).take(0) =~= Seq::<Seq<char>>::empty());
    while i < parts.len()
        invariant
            from <= i <= parts@.len(),
            t == crate::error::texts(parts@),
            out@ == concat_texts(t.skip(from as int).take(i - from)),
        decreases parts@.len() - i,
    {
        out.append(parts[i].as_str());
        proof {
            let k = (i - from) as int;
            assert(t.skip(from as int).take(k + 1).drop_last() =~= t.skip(from as int).take(k));
            assert(t.skip(from as int).take(k + 1).last() == parts@[i as int]@);
        }
        i = i + 1;
    }
    assert(t.skip(from as int).take(parts@.len() - from) =~= t.skip(from as int));
    out
}

fn one_step(s: &str) -> (r: Vec<String>)
    ensures
        crate::error::texts(r@) == seq![s@],
{
    let mut v: Vec<String> = Vec::new();
    v.push(s.to_owned());
    assert(crate::error::texts(v@) =~= seq![s@]);
    v
}

/// The selector of module `name` from the configured selector (see
/// `selector_spec`).
pub fn module_selector(selector: ItemData, name: &str, options: ItemData) -> (r: MizeResult<ItemData>)
    ensures
        match selector_spec(selector@, name@, options@) {
            Some(s) => r matches Ok(d) && d@ == s,
            None => r is Err,
        },
{
    let mut selector_data = selector;
    let parts = split_text(name, '.');
    proof {
        crate::text::lemma_split_nonempty(name@, '.');
        assert(crate::error::texts(parts@) =~= split_spec(name@, '.'));
        reveal_strlit("system");
        reveal_strlit("modName");
    }
    if crate::item::text_is(parts[0].as_str(), "cross") {
        if parts.len() < 2 {
            return Err(MizeError::new().msg("no 1th element in the modName"));
        }
        let system = parts[1].as_str();
        let mod_name = concat_from(&parts, 2);
        if mod_name.as_str().unicode_len() == 0 {
            return Err(MizeError::new().msg("no 2nd element in the modName"));
        }
        match crate::item::item_data_set_path(&mut selector_data.0, one_step("system"), &ItemData::parse(system).0) {
            Ok(_) => {},
            Err(e) => {
                return Err(e);
            },
        }
        match crate::item::item_data_set_path(&mut selector_data.0, one_step("modName"), &crate::value::CborValue::Text(mod_name)) {
            Ok(_) => {},
            Err(e) => {
                return Err(e);
            },
        }
    } else {
        match crate::item::item_data_set_path(&mut selector_data.0, one_step("modName"), &ItemData::parse(name).0) {
            Ok(_) => {},
            Err(e) => {
                return Err(e);
            },
        }
    }
    selector_data.merge(options);
    let _ = selector_data.sort_keys();
    Ok(selector_data)
}

/// What SHA-256 gives for a byte string.
pub uninterp spec fn sha256_spec(data: Seq<u8>) -> Seq<u8>;

/// The SHA-256 digest of `data`.
///
/// Wraps `sha2::Sha256::digest`; its result is a function of the bytes alone,
/// named `sha256_spec`, and is 32 bytes long, as the digest size of SHA-256 is.
#[verifier::external_body]
fn sha256(data: &[u8]) -> (r: Vec<u8>)
    ensures
        r@ == sha256_spec(data@),
        r@.len() == 32,
{
    sha2::Sha256::digest(data).to_vec()
}

/// The hash that names a module build: the first 32 hexadecimal digits of the
/// SHA-256 digest of the selector's text.
pub open spec fn module_hash_spec(selector_text: Seq<u8>) -> Seq<char> {
    hex_spec(sha256_spec(selector_text)).take(32)
}

/// The hash that names the module build that `selector_str` (the selector
/// written as JSON) selects (see `module_hash_spec`).
pub fn module_hash(selector_str: &str) -> (r: String)
    ensures
        r@ == module_hash_spec(vstd::utf8::encode_utf8(selector_str@)),
{
    let digest = sha256(selector_str.as_bytes());
    let full = hex(digest.as_slice());
    proof {
        lemma_hex_len(digest@);
    }
    let cs = crate::text::chars_of(full.as_str());
    let mut out: Vec<char> = Vec::new();
    let mut i: usize = 0;
    while i < 32
        invariant
            i <= 32,
            cs@.len() == 64,
            out@ == cs@.take(i as int),
        decreases 32 - i,
    {
        out.push(cs[i]);
        i = i + 1;
        assert(out@ =~= cs@.take(i as int));
    }
    crate::text::string_from_chars(out.as_slice())
}

proof fn lemma_hex_len(b: Seq<u8>)
    ensures
        hex_spec(b).len() == 2 * b.len(),
    decreases b.len(),
{
    if b.len() > 0 {
        lemma_hex_len(b.drop_last());
    }
}

/// Reads the configured selector, `self/config/selector`, and makes the
/// selector of module `name` from it (see `module_selector`); where the
/// configured selector lives with a peer, the request for it.
pub fn get_module_hash(instance: &Instance, name: &str, options: ItemData) -> (r: MizeResult<
    Fetch<ItemData>,
>)
    ensures
        match crate::instance::IntoMizeId::id_view(&"self/config/selector", instance@.namespace) {
            Some(id) => match lookup_spec(instance@, id) {
                FoundSpec::Fails => r is Err,
                FoundSpec::Local(d) => match selector_spec(d, name@, options@) {
                    Some(s) => r matches Ok(Fetch::Ready(x)) && x@ == s,
                    None => r is Err,
                },
                FoundSpec::Remote(w, c) => r matches Ok(Fetch::Remote(wid, m)) && wid@ == w && m@
                    == crate::updater::get_msg_spec(w, c),
            },
            None => r is Err,
        },
{
    let item = match instance.get("self/config/selector") {
        Ok(i) => i,
        Err(e) => {
            return Err(e);
        },
    };
    match item.as_data_full(instance) {
        Err(e) => Err(e),
        Ok(Fetch::Remote(w, m)) => Ok(Fetch::Remote(w, m)),
        Ok(Fetch::Ready(d)) => match module_selector(d, name, options) {
            Ok(s) => Ok(Fetch::Ready(s)),
            Err(e) => Err(e),
        },
    }
}


/// The hash of the module build that a selector selects, and the selector
/// written as JSON, which the hash is made of (see `module_hash_spec`).
/// An error where the selector cannot be written as JSON.
pub fn selector_hash(selector: &ItemData) -> (r: MizeResult<(String, String)>)
    ensures
        match crate::formats::cbor_json(selector@) {
            Some(t) => r matches Ok((h, j)) && j@ == t && h@ == module_hash_spec(
                vstd::utf8::encode_utf8(t),
            ),
            None => r is Err,
        },
{
    match selector.to_json() {
        Ok(text) => {
            let hash = module_hash(text.as_str());
            Ok((hash, text))
        },
        Err(e) => Err(e),
    }
}

} // verus!
