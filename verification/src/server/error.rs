//! The errors of the server: each has a code, which a table of known errors
//! gives a category and a message.
use vstd::prelude::*;
use crate::error::texts;
use crate::text::decimal;

verus! {

broadcast use vstd::std_specs::vec::group_vec_axioms;

/// Where in the source an error was made.
#[derive(Debug)]
pub struct MizeCodeLocation {
    pub file: String,
    pub line: u32,
    pub column: u32,
}

/// An error of the server.
#[derive(Debug)]
pub struct MizeError {
    pub category: String,
    pub code: u32,
    pub message: String,
    pub extra_msg: Vec<String>,
    pub code_location: Option<MizeCodeLocation>,
}

/// The code of the error that stands for a code the table does not know.
pub const UNKNOWN_CODE: u32 = 114;

/// The index of the first error with `code` in the table, or its length.
pub open spec fn code_index(codes: Seq<u32>, code: u32) -> int
    decreases codes.len(),
{
    if codes.len() == 0 {
        0
    } else if codes[0] == code {
        0
    } else {
        1 + code_index(codes.drop_first(), code)
    }
}

pub open spec fn table_codes(table: Seq<MizeError>) -> Seq<u32> {
    Seq::new(table.len(), |i: int| table[i].code)
}

proof fn lemma_code_index_at(codes: Seq<u32>, code: u32, i: int)
    requires
        0 <= i <= codes.len(),
        i < codes.len() ==> codes[i] == code,
        forall|j: int| 0 <= j < i ==> codes[j] != code,
    ensures
        code_index(codes, code) == i,
    decreases codes.len(),
{
    if codes.len() > 0 && i > 0 {
        assert forall|j: int| 0 <= j < i - 1 implies codes.drop_first()[j] != code by {
            assert(codes.drop_first()[j] == codes[j + 1]);
        }
        lemma_code_index_at(codes.drop_first(), code, i - 1);
    }
}

/// Whether `e` is the error that the table gives for `code`, made at
/// `location`, with the messages `extra` added after those of the table:
/// for a code the table does not know, the error of the error system with
/// code 114 whose message names the code.
pub open spec fn made_error(
    e: MizeError,
    code: u32,
    table: Seq<MizeError>,
    location: MizeCodeLocation,
    extra: Seq<Seq<char>>,
) -> bool {
    let i = code_index(table_codes(table), code);
    &&& if i < table.len() {
        &&& e.code == code
        &&& e.category@ == table[i].category@
        &&& e.message@ == table[i].message@
        &&& texts(e.extra_msg@) == texts(table[i].extra_msg@) + extra
    } else {
        &&& e.code == UNKNOWN_CODE
        &&& e.category@ == "error with error system"@
        &&& e.message@ == "The error with code "@ + decimal(code as nat)
            + " was not found in the Errors that where imported from the errors.toml file at build time."@
        &&& texts(e.extra_msg@) == extra
    }
    &&& e.code_location matches Some(l) && l.file@ == location.file@ && l.line == location.line
        && l.column == location.column
}

fn copy_texts(v: &Vec<String>) -> (r: Vec<String>)
    ensures
        texts(r@) == texts(v@),
{
    crate::error::copy_strings(v)
}

impl MizeError {
    /// The error with `code`, as the table of known errors gives it, made at
    /// `location`; for a code the table does not know, an error of the error
    /// system with code 114 whose message names the code.
    pub fn new(code: u32, table: &Vec<MizeError>, location: MizeCodeLocation) -> (r: MizeError)
        ensures
            made_error(r, code, table@, location, Seq::empty()),
    {
        let mut i: usize = 0;
        while i < table.len()
            invariant
                i <= table@.len(),
                forall|j: int| 0 <= j < i ==> table@[j].code != code,
            decreases table@.len() - i,
        {
            if table[i].code == code {
                proof {
                    lemma_code_index_at(table_codes(table@), code, i as int);
                }
                proof {
                    assert(texts(table@[i as int].extra_msg@) + Seq::<Seq<char>>::empty() =~= texts(
                        table@[i as int].extra_msg@,
                    ));
                }
                return MizeError {
                    category: table[i].category.clone(),
                    code,
                    message: table[i].message.clone(),
                    extra_msg: copy_texts(&table[i].extra_msg),
                    code_location: Some(location),
                };
            }
            i = i + 1;
        }
        proof {
            lemma_code_index_at(table_codes(table@), code, i as int);
        }
        let mut message = String::from_str("The error with code ");
        let number = crate::text::decimal_text(code as u64);
        message.append(number.as_str());
        message.append(
            " was not found in the Errors that where imported from the errors.toml file at build time.",
        );
        let r = MizeError {
            category: String::from_str("error with error system"),
            code: UNKNOWN_CODE,
            message,
            extra_msg: Vec::new(),
            code_location: Some(location),
        };
        assert(texts(r.extra_msg@) =~= Seq::<Seq<char>>::empty());
        r
    }

    /// Adds a message.
    pub fn extra_msg(self, msg: &str) -> (r: MizeError)
        ensures
            r.code == self.code,
            r.category@ == self.category@,
            r.message@ == self.message@,
            texts(r.extra_msg@) == texts(self.extra_msg@).push(msg@),
            r.code_location == self.code_location,
    {
        let mut e = self;
        let ghost before = texts(e.extra_msg@);
        e.extra_msg.push(msg.to_owned());
        assert(texts(e.extra_msg@) =~= before.push(msg@));
        e
    }

    /// Appends each value to the message as ` FORMAT_0: <value>`; the
    /// number stays 0 for every value.
    pub fn format(self, values: Vec<&str>) -> (r: MizeError)
        ensures
            r.code == self.code,
            r.message@ == values@.fold_left(self.message@, |m: Seq<char>, v: &str| m + " FORMAT_0: "@ + v@),
    {
        let mut e = self;
        let ghost start = e.message@;
        let ghost f = |m: Seq<char>, v: &str| m + " FORMAT_0: "@ + v@;
        let mut i: usize = 0;
        while i < values.len()
            invariant
                i <= values@.len(),
                f == (|m: Seq<char>, v: &str| m + " FORMAT_0: "@ + v@),
                e.message@ == values@.take(i as int).fold_left(start, f),
                e.code == self.code,
            decreases values@.len() - i,
        {
            e.message.append(" FORMAT_0: ");
            e.message.append(values[i]);
            proof {
                let t = values@.take(i + 1);
                assert(t.drop_last() =~= values@.take(i as int));
                assert(t.last() == values@[i as int]);
            }
            i = i + 1;
        }
        assert(values@.take(values@.len() as int) =~= values@);
        e
    }
}

} // verus!
