//! The name of a file on the virtual file system.
use crate::error::{Audience, Error, Kind};
use crate::text::{ascii_alphanumeric, chars_of, is_ascii_alphanumeric, trim, trimmed};
use vstd::prelude::*;

verus! {

/// `c` may stand in a file name: an ASCII letter or digit, `.`, `_` or `-`.
pub open spec fn is_name_char(c: char) -> bool {
    is_ascii_alphanumeric(c) || c == '.' || c == '_' || c == '-'
}

/// The message for a name that is empty once it is trimmed.
pub open spec fn empty_message() -> Seq<char> {
    "The file name cannot be empty."@
}

/// The message for the names `.` and `..`.
pub open spec fn dots_message() -> Seq<char> {
    "The file name cannot be '.' or '..'."@
}

/// The message for a name whose first character may not stand in a name.
pub open spec fn start_message() -> Seq<char> {
    "The file name must start with a letter, number, '-', '.', or '_'."@
}

/// The message for a name that holds a character that may not stand in one.
pub open spec fn characters_message() -> Seq<char> {
    "The file name can only contain alphanumeric characters, '.', '_', or '-'."@
}

/// Why `name` is no file name, as the message of the error, or `None` where
/// it is one. The first rule that is broken decides.
pub open spec fn name_fault(name: Seq<char>) -> Option<Seq<char>> {
    if name.len() == 0 {
        Some(empty_message())
    } else if name == seq!['.'] || name == seq!['.', '.'] {
        Some(dots_message())
    } else if !is_name_char(name[0]) {
        Some(start_message())
    } else if !(forall|i: int| 0 <= i < name.len() ==> is_name_char(#[trigger] name[i])) {
        Some(characters_message())
    } else {
        None
    }
}

/// What validating `value` gives: the trimmed name, or the message of the
/// error. A value that was never set counts as the empty text.
pub open spec fn validated(value: Option<Seq<char>>) -> Result<Seq<char>, Seq<char>> {
    let name = trimmed(
        match value {
            Some(text) => text,
            None => Seq::empty(),
        },
    );
    match name_fault(name) {
        Some(message) => Err(message),
        None => Ok(name),
    }
}

/// The name of a file: not empty, not `.` or `..`, and made of ASCII
/// letters and digits, `.`, `_` and `-` only.
#[derive(Debug, Eq, PartialEq)]
pub struct FileName {
    value: String,
}

impl View for FileName {
    type V = Seq<char>;

    /// The characters of the name.
    closed spec fn view(&self) -> Seq<char> {
        self.value@
    }
}

impl Clone for FileName {
    fn clone(&self) -> (r: Self)
        ensures
            r@ == self@,
    {
        proof {
            use_type_invariant(self);
        }
        FileName { value: self.value.clone() }
    }
}

impl FileName {
    #[verifier::type_invariant]
    closed spec fn valid(&self) -> bool {
        name_fault(self.value@) is None
    }

    /// A builder that holds no name yet.
    pub fn builder() -> (r: FileNameBuilder)
        ensures
            r@ is None,
    {
        FileNameBuilder { value: None }
    }

    /// The name. It keeps every rule of file names.
    pub fn value(&self) -> (r: &str)
        ensures
            r@ == self@,
            name_fault(r@) is None,
    {
        proof {
            use_type_invariant(self);
        }
        self.value.as_str()
    }
}

/// Builds a [`FileName`] from the text that was set last.
#[derive(Clone, Default)]
pub struct FileNameBuilder {
    value: Option<String>,
}

impl View for FileNameBuilder {
    type V = Option<Seq<char>>;

    /// The text that was set, if any was.
    closed spec fn view(&self) -> Option<Seq<char>> {
        match self.value {
            Some(text) => Some(text@),
            None => None,
        }
    }
}

impl FileNameBuilder {
    /// Sets the text of the name.
    pub fn value(self, value: &str) -> (r: Self)
        ensures
            r@ == Some(value@),
    {
        FileNameBuilder { value: Some(value.to_owned()) }
    }

    /// The file name that the text denotes once the white space around it
    /// is left out, or the error for the first rule that it breaks.
    pub fn build(self) -> (r: Result<FileName, Error>)
        ensures
            match validated(self@) {
                Ok(name) => r is Ok && r.unwrap()@ == name,
                Err(message) => r is Err && r.unwrap_err().is(
                    Audience::System,
                    Kind::InvalidInput,
                    message,
                ),
            },
    {
        match validate_name(self.value) {
            Ok(valid_name) => Ok(FileName { value: valid_name }),
            Err(error) => Err(error),
        }
    }
}

/// The trimmed text of `value` where it is a file name, or the error for the
/// first rule that it breaks.
fn validate_name(value: Option<String>) -> (r: Result<String, Error>)
    ensures
        match validated(
            match value {
                Some(text) => Some(text@),
                None => None,
            },
        ) {
            Ok(name) => r is Ok && r.unwrap()@ == name,
            Err(message) => r is Err && r.unwrap_err().is(
                Audience::System,
                Kind::InvalidInput,
                message,
            ),
        },
{
    let given = match value {
        Some(text) => text,
        None => String::new(),
    };
    check_name(trim(given.as_str()))
}

/// `name` where it keeps every rule of file names, or the error for the
/// first rule that it breaks. Nothing is trimmed here.
#[verifier::loop_isolation(false)]
pub fn check_name(name: &str) -> (r: Result<String, Error>)
    ensures
        match name_fault(name@) {
            None => r is Ok && r.unwrap()@ == name@,
            Some(message) => r is Err && r.unwrap_err().is(
                Audience::System,
                Kind::InvalidInput,
                message,
            ),
        },
{
    let chars = chars_of(name);
    let n = chars.len();
    if n == 0 {
        return Err(invalid_input("The file name cannot be empty."));
    }
    if chars[0] == '.' && (n == 1 || (n == 2 && chars[1] == '.')) {
        assert(chars@ =~= seq!['.'] || chars@ =~= seq!['.', '.']);
        return Err(invalid_input("The file name cannot be '.' or '..'."));
    }
    assert(chars@ != seq!['.'] && chars@ != seq!['.', '.']) by {
        if chars@ == seq!['.'] || chars@ == seq!['.', '.'] {
            assert(chars@[0] == '.');
            assert(chars@.len() == 1 || chars@[1] == '.');
        }
    }
    if !name_char(chars[0]) {
        return Err(
            invalid_input("The file name must start with a letter, number, '-', '.', or '_'."),
        );
    }
    let mut i: usize = 1;
    while i < n
        invariant
            n == chars@.len(),
            1 <= i <= n,
            forall|j: int| 0 <= j < i ==> is_name_char(#[trigger] chars@[j]),
        decreases n - i,
    {
        if !name_char(chars[i]) {
            assert(!is_name_char(chars@[i as int]));
            return Err(
                invalid_input(
                    "The file name can only contain alphanumeric characters, '.', '_', or '-'.",
                ),
            );
        }
        i += 1;
    }
    Ok(name.to_owned())
}

/// Whether `c` may stand in a file name.
fn name_char(c: char) -> (r: bool)
    ensures
        r == is_name_char(c),
{
    ascii_alphanumeric(c) || c == '.' || c == '_' || c == '-'
}

/// The error that every broken rule of file names gives, with its message.
fn invalid_input(message: &str) -> (r: Error)
    ensures
        r.is(Audience::System, Kind::InvalidInput, message@),
{
    Error::for_system(Kind::InvalidInput, message)
}

} // verus!
