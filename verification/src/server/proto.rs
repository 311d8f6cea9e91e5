//! The ids and the binary messages of the server's protocol.
use vstd::prelude::*;
use crate::error::{MizeError, MizeResult};
use crate::text::{parse_unsigned, parse_unsigned_spec};

verus! {

/// An id of the server: one text.
#[derive(Debug)]
pub struct MizeId {
    main: String,
}

/// A binary message, sent as it is.
#[derive(Debug)]
pub struct BinMessage {
    pub raw: Vec<u8>,
}

/// What an id names: an item of a module, an item of the upstream server
/// with that number, or a local item.
#[derive(Debug)]
pub enum MizeIdKind {
    Module { mod_name: String, id: String },
    Upstream(u64),
    Local(u64),
}

/// The model of what an id names.
pub enum KindView {
    Module(Seq<char>, Seq<char>),
    Upstream(u64),
    Local(u64),
}

impl View for MizeIdKind {
    type V = KindView;

    open spec fn view(&self) -> KindView {
        match self {
            MizeIdKind::Module { mod_name, id } => KindView::Module(mod_name@, id@),
            MizeIdKind::Upstream(n) => KindView::Upstream(*n),
            MizeIdKind::Local(n) => KindView::Local(*n),
        }
    }
}

/// What an id names: an id starting with `#` names an item of a module, whose
/// name is the text before the first `#` or `/` (so the empty text) and whose
/// id is the whole text; an id that is a decimal `u64` names a local item.
/// `None` for the empty id and for anything else.
pub open spec fn kind_spec(main: Seq<char>) -> Option<KindView> {
    if main.len() == 0 {
        None
    } else if main[0] == '#' {
        Some(KindView::Module(Seq::empty(), main))
    } else {
        match parse_unsigned_spec(main, u64::MAX as int) {
            Some(n) => Some(KindView::Local(n as u64)),
            None => None,
        }
    }
}

impl MizeId {
    pub fn new(main: String) -> (r: MizeId)
        ensures
            r.text() == main@,
    {
        MizeId { main }
    }

    pub fn new_local(local_part: &str) -> (r: MizeId)
        ensures
            r.text() == local_part@,
    {
        MizeId { main: local_part.to_owned() }
    }

    pub closed spec fn text(&self) -> Seq<char> {
        self.main@
    }

    /// The text of this id.
    pub fn text_ref(&self) -> (r: &str)
        ensures
            r@ == self.text(),
    {
        self.main.as_str()
    }

    pub fn as_string(self) -> (r: String)
        ensures
            r@ == self.text(),
    {
        self.main
    }

    /// What this id names (see `kind_spec`).
    pub fn kind(&self) -> (r: MizeResult<MizeIdKind>)
        ensures
            match kind_spec(self.text()) {
                Some(k) => r matches Ok(x) && x@ == k,
                None => r is Err,
            },
    {
        let n = self.main.as_str().unicode_len();
        if n == 0 {
            return Err(MizeError::new().msg("Couldn't get the first char from a MizeId"));
        }
        let first = self.main.as_str().get_char(0);
        if first == '#' {
            Ok(MizeIdKind::Module { mod_name: String::new(), id: self.main.clone() })
        } else {
            match parse_unsigned(self.main.as_str(), 0xFFFF_FFFF_FFFF_FFFF) {
                Some(v) => Ok(MizeIdKind::Local(v as u64)),
                None => Err(MizeError::new().msg("Couldn't parse a local id into an integer")),
            }
        }
    }
}

} // verus!
