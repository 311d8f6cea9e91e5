use vstd::prelude::*;
use crate::text::decimal_text;

verus! {

/// Where in the source an error was made.
#[derive(Debug)]
pub struct MizeCodeLocation {
    pub file: String,
    pub line: u32,
    pub column: u32,
}

/// An error of the library: categories, a code, messages and where it came from.
#[derive(Debug)]
pub struct MizeError {
    pub category: Vec<String>,
    pub code: u32,
    pub messages: Vec<String>,
    pub code_location: Option<MizeCodeLocation>,
}

pub type MizeResult<T> = Result<T, MizeError>;

pub open spec fn texts(v: Seq<String>) -> Seq<Seq<char>> {
    Seq::new(v.len(), |i: int| v[i]@)
}

impl Clone for MizeCodeLocation {
    fn clone(&self) -> (r: Self)
        ensures
            r.file@ == self.file@,
            r.line == self.line,
            r.column == self.column,
    {
        MizeCodeLocation { file: self.file.clone(), line: self.line, column: self.column }
    }
}

impl MizeCodeLocation {
    pub fn new(file: &str, line: u32, column: u32) -> (r: MizeCodeLocation)
        ensures
            r.file@ == file@,
            r.line == line,
            r.column == column,
    {
        MizeCodeLocation { file: file.to_owned(), line, column }
    }

    /// `file: <file> line: <line> column: <column>`, as the location is displayed.
    pub fn describe(&self) -> (r: String)
        ensures
            r@ == "file: "@ + self.file@ + " line: "@ + crate::text::decimal(self.line as nat)
                + " column: "@ + crate::text::decimal(self.column as nat),
    {
        let mut s = String::from_str("file: ");
        s.append(self.file.as_str());
        s.append(" line: ");
        let l = decimal_text(self.line as u64);
        s.append(l.as_str());
        s.append(" column: ");
        let c = decimal_text(self.column as u64);
        s.append(c.as_str());
        s
    }
}

impl Clone for MizeError {
    fn clone(&self) -> (r: Self)
        ensures
            r.code == self.code,
            texts(r.category@) == texts(self.category@),
            texts(r.messages@) == texts(self.messages@),
    {
        MizeError {
            category: copy_strings(&self.category),
            code: self.code,
            messages: copy_strings(&self.messages),
            code_location: self.code_location.clone(),
        }
    }
}

pub fn copy_strings(v: &Vec<String>) -> (r: Vec<String>)
    ensures
        texts(r@) == texts(v@),
{
    let mut r: Vec<String> = Vec::new();
    let mut i: usize = 0;
    while i < v.len()
        invariant
            i <= v.len(),
            r@.len() == i,
            forall|j: int| 0 <= j < i ==> #[trigger] r@[j]@ == v@[j]@,
        decreases v.len() - i,
    {
        r.push(v[i].clone());
        i = i + 1;
    }
    assert(texts(r@) =~= texts(v@));
    r
}

impl MizeError {
    /// A new error with no category, code 0, no messages and no location.
    pub fn new() -> (r: MizeError)
        ensures
            r.category@.len() == 0,
            r.code == 0,
            r.messages@.len() == 0,
            r.code_location is None,
    {
        MizeError { category: Vec::new(), code: 0, messages: Vec::new(), code_location: None }
    }

    /// The error that stands for `code`: 109 and 108 are decoding errors with
    /// their message, every other code gives an error with code 0.
    pub fn code(code: u32) -> (r: MizeError)
        ensures
            code == 109 ==> r.code == 109 && texts(r.category@) == seq!["decoding"@] && texts(
                r.messages@,
            ) == seq!["conversion from utf8 failed"@],
            code == 108 ==> r.code == 108 && texts(r.category@) == seq!["decoding"@] && texts(
                r.messages@,
            ) == seq!["serde deserialisation failed"@],
            code != 109 && code != 108 ==> r.code == 0 && r.category@.len() == 0
                && r.messages@.len() == 0,
    {
        get_error_by_code(code)
    }

    pub fn set_code(self, code: u32) -> (r: MizeError)
        ensures
            r.code == code,
            r.category == self.category,
            r.messages == self.messages,
            r.code_location == self.code_location,
    {
        let mut s = self;
        s.code = code;
        s
    }

    /// Adds a message.
    pub fn msg(self, msg: &str) -> (r: MizeError)
        ensures
            r.code == self.code,
            r.category == self.category,
            texts(r.messages@) == texts(self.messages@).push(msg@),
            r.code_location == self.code_location,
    {
        let mut s = self;
        s.messages.push(msg.to_owned());
        assert(texts(s.messages@) =~= texts(self.messages@).push(msg@));
        s
    }

    /// Adds a category.
    pub fn category(self, category: &str) -> (r: MizeError)
        ensures
            r.code == self.code,
            texts(r.category@) == texts(self.category@).push(category@),
            r.messages == self.messages,
            r.code_location == self.code_location,
    {
        let mut s = self;
        s.category.push(category.to_owned());
        assert(texts(s.category@) =~= texts(self.category@).push(category@));
        s
    }

    /// Sets where the error was made.
    pub fn location(self, location: MizeCodeLocation) -> (r: MizeError)
        ensures
            r.code == self.code,
            r.category == self.category,
            r.messages == self.messages,
            r.code_location == Some(location),
    {
        let mut s = self;
        s.code_location = Some(location);
        s
    }
}

fn get_error_by_code(code: u32) -> (r: MizeError)
    ensures
        code == 109 ==> r.code == 109 && texts(r.category@) == seq!["decoding"@] && texts(
            r.messages@,
        ) == seq!["conversion from utf8 failed"@],
        code == 108 ==> r.code == 108 && texts(r.category@) == seq!["decoding"@] && texts(
            r.messages@,
        ) == seq!["serde deserialisation failed"@],
        code != 109 && code != 108 ==> r.code == 0 && r.category@.len() == 0 && r.messages@.len()
            == 0,
{
    let err = MizeError::new();
    if code == 109 {
        err.set_code(109).category("decoding").msg("conversion from utf8 failed")
    } else if code == 108 {
        err.set_code(108).category("decoding").msg("serde deserialisation failed")
    } else {
        err
    }
}

/// The part of a result that must be a success before its value is taken.
pub trait MizeResultTrait<T>: Sized {
    spec fn is_success(&self) -> bool;

    spec fn success_value(&self) -> T;

    /// The value of a result that must be a success.
    fn critical(self) -> (r: T)
        requires
            self.is_success(),
        ensures
            r == self.success_value(),
    ;
}

impl<T> MizeResultTrait<T> for MizeResult<T> {
    open spec fn is_success(&self) -> bool {
        self is Ok
    }

    open spec fn success_value(&self) -> T {
        self->Ok_0
    }

    fn critical(self) -> (r: T) {
        self.unwrap()
    }
}

} // verus!
