//! The link to the repository that holds a procedure's specification: a
//! scheme from a list of allowed ones, `://`, and what follows.
use crate::error::{Audience, Error, Kind};
use crate::text::{
    blank, chars_of, converts, find_separator, has_single_separator, is_blank,
    lemma_next_separator, letter_or_number, next_separator, single_separator,
};
use vstd::prelude::*;
use vstd::string::{StrSliceExecFns, StringExecFns};

verus! {

/// The characters of each text of `list`.
pub open spec fn texts(list: Seq<String>) -> Seq<Seq<char>> {
    Seq::new(list.len(), |i: int| list[i]@)
}

/// How the `Debug` format writes a list of texts.
pub uninterp spec fn debug_text(items: Seq<Seq<char>>) -> Seq<char>;

/// `format!` with `{:?}` on a slice of `String`: the `Debug` form of the
/// list, which the texts in it alone decide.
#[verifier::external_body]
fn debug_format(list: &[String]) -> (r: String)
    ensures
        r@ == debug_text(texts(list@)),
{
    format!("{:?}", list)
}

/// The message for a builder without allowed schemes.
pub open spec fn no_allowed_message() -> Seq<char> {
    "No allowed schemes were provided, please provide at least one allowed scheme."@
}

/// The message for a builder without a default scheme.
pub open spec fn no_default_message() -> Seq<char> {
    "A default scheme was not provided. Please provide a default scheme."@
}

/// The message for a default scheme that is empty or all white space.
pub open spec fn blank_default_message() -> Seq<char> {
    "The provided default scheme is empty or all whitespace. Please provide a non-empty default scheme."@
}

/// The message for a default scheme that is not among the allowed ones,
/// where `listed` is how the allowed ones are written.
pub open spec fn default_not_allowed_text(scheme: Seq<char>, listed: Seq<char>) -> Seq<char> {
    "The provided default scheme '"@ + scheme + "' is not in the list of allowed schemes: "@
        + listed
        + ". Either provide a default scheme that is in the list of allowed schemes, or update the list of allowed schema to include the default schema."@
}

/// The message for a default scheme that is not among the allowed ones.
pub open spec fn default_not_allowed_message(
    scheme: Seq<char>,
    allowed: Seq<Seq<char>>,
) -> Seq<char> {
    default_not_allowed_text(scheme, debug_text(allowed))
}

/// The message for a builder without a link.
pub open spec fn no_link_message() -> Seq<char> {
    "A repository link was not provided. Please provide a repository link."@
}

/// The message for a link that is empty or all white space.
pub open spec fn blank_link_message() -> Seq<char> {
    "The provided repository link is empty or all whitespace. Please provide a non-empty repository link."@
}

/// The message for a link that is malformed.
pub open spec fn malformed_message(link: Seq<char>) -> Seq<char> {
    "The repository link ["@ + link
        + "] is malformed. It must either start with contain a scheme separator '://' or be formatted as [scheme]://[host] per for the RFC 3986 specification."@
}

/// The message for a link whose scheme is not among the allowed ones,
/// where `listed` is how the allowed ones are written.
pub open spec fn scheme_not_allowed_text(
    scheme: Seq<char>,
    listed: Seq<char>,
    default_scheme: Seq<char>,
) -> Seq<char> {
    "The url scheme '"@ + scheme + "' is not allowed. Allowed schemes are "@ + listed
        + " and the default scheme is '"@ + default_scheme + "'."@
}

/// The message for a link whose scheme is not among the allowed ones.
pub open spec fn scheme_not_allowed_message(
    scheme: Seq<char>,
    allowed: Seq<Seq<char>>,
    default_scheme: Seq<char>,
) -> Seq<char> {
    scheme_not_allowed_text(scheme, debug_text(allowed), default_scheme)
}

/// A link is malformed where it does not begin with a letter or a number
/// and does not hold `://` exactly once with something behind it.
pub open spec fn is_malformed(link: Seq<char>) -> bool {
    !(link.len() > 0 && letter_or_number(link[0])) && !has_single_separator(link)
}

/// The scheme of a link: what stands before its first `://`, or the whole
/// link where it holds none.
pub open spec fn scheme_of(link: Seq<char>) -> Seq<char> {
    link.take(next_separator(link, 0))
}

/// The link with a scheme: a link that names one is kept; one that begins
/// with `://` gets the default scheme before it and keeps what stands
/// between this separator and the next; one without `://` gets the default
/// scheme and `://` before it.
pub open spec fn with_scheme(link: Seq<char>, default_scheme: Seq<char>) -> Seq<char> {
    let first = next_separator(link, 0);
    if first >= link.len() {
        default_scheme + "://"@ + link
    } else if first == 0 {
        default_scheme + "://"@ + link.subrange(3, next_separator(link, 3))
    } else {
        link
    }
}

/// Why a default scheme is refused, as the audience and the message of the
/// error, or `None` where it is accepted.
pub open spec fn default_scheme_fault(allowed: Seq<Seq<char>>, scheme: Option<Seq<char>>) -> Option<
    (Audience, Seq<char>),
> {
    match scheme {
        None => Some((Audience::User, no_default_message())),
        Some(text) => if is_blank(text) {
            Some((Audience::System, blank_default_message()))
        } else if !allowed.contains(text) {
            Some((Audience::System, default_not_allowed_message(text, allowed)))
        } else {
            None
        },
    }
}

/// What checking a link gives: the link with its scheme, or the audience
/// and the message of the error.
pub open spec fn checked_link(
    allowed: Seq<Seq<char>>,
    default_scheme: Seq<char>,
    link: Option<Seq<char>>,
) -> Result<Seq<char>, (Audience, Seq<char>)> {
    match link {
        None => Err((Audience::System, no_link_message())),
        Some(text) => if is_blank(text) {
            Err((Audience::System, blank_link_message()))
        } else if is_malformed(text) {
            Err((Audience::System, malformed_message(text)))
        } else {
            let full = with_scheme(text, default_scheme);
            if allowed.contains(scheme_of(full)) {
                Ok(full)
            } else {
                Err(
                    (
                        Audience::System,
                        scheme_not_allowed_message(scheme_of(full), allowed, default_scheme),
                    ),
                )
            }
        },
    }
}

/// What building gives from the allowed schemes, the default scheme and
/// the link: the link with its scheme, or the audience and the message of
/// the error for the first check that fails.
pub open spec fn built_link(
    allowed: Seq<Seq<char>>,
    default_scheme: Option<Seq<char>>,
    link: Option<Seq<char>>,
) -> Result<Seq<char>, (Audience, Seq<char>)> {
    if allowed.len() == 0 {
        Err((Audience::System, no_allowed_message()))
    } else {
        match default_scheme_fault(allowed, default_scheme) {
            Some(fault) => Err(fault),
            None => checked_link(allowed, default_scheme.unwrap(), link),
        }
    }
}

/// `error` is the error for invalid input with this audience and message.
pub open spec fn is_fault(error: Error, fault: (Audience, Seq<char>)) -> bool {
    error.is(fault.0, Kind::InvalidInput, fault.1)
}

/// The error for a default scheme that is not among the allowed ones,
/// where `listed` is how the allowed ones are written.
pub fn default_not_allowed(scheme: &str, listed: &str) -> (r: Error)
    ensures
        is_fault(r, (Audience::System, default_not_allowed_text(scheme@, listed@))),
{
    let message = "The provided default scheme '".to_owned().concat(scheme).concat(
        "' is not in the list of allowed schemes: ",
    ).concat(listed).concat(
        ". Either provide a default scheme that is in the list of allowed schemes, or update the list of allowed schema to include the default schema.",
    );
    Error::for_system(Kind::InvalidInput, message.as_str())
}

/// The error for a link whose scheme is not among the allowed ones, where
/// `listed` is how the allowed ones are written.
pub fn scheme_not_allowed(scheme: &str, listed: &str, default_scheme: &str) -> (r: Error)
    ensures
        is_fault(
            r,
            (Audience::System, scheme_not_allowed_text(scheme@, listed@, default_scheme@)),
        ),
{
    let message = "The url scheme '".to_owned().concat(scheme).concat(
        "' is not allowed. Allowed schemes are ",
    ).concat(listed).concat(" and the default scheme is '").concat(default_scheme).concat("'.");
    Error::for_system(Kind::InvalidInput, message.as_str())
}

/// The error for a link that is malformed.
pub fn malformed(link: &str) -> (r: Error)
    ensures
        is_fault(r, (Audience::System, malformed_message(link@))),
{
    let message = "The repository link [".to_owned().concat(link).concat(
        "] is malformed. It must either start with contain a scheme separator '://' or be formatted as [scheme]://[host] per for the RFC 3986 specification.",
    );
    Error::for_system(Kind::InvalidInput, message.as_str())
}

/// Whether one of the texts of `list` is `item`.
fn contains_text(list: &[String], item: &String) -> (r: bool)
    ensures
        r == texts(list@).contains(item@),
{
    let mut i: usize = 0;
    while i < list.len()
        invariant
            i <= list@.len(),
            forall|j: int| 0 <= j < i ==> texts(list@)[j] != item@,
        decreases list@.len() - i,
    {
        if list[i] == *item {
            assert(texts(list@)[i as int] == item@);
            return true;
        }
        i += 1;
    }
    false
}

/// The link to a repository, with its scheme.
#[derive(Clone, Debug, Eq, Hash, PartialEq)]
pub struct RepositoryLink {
    url: String,
}

impl View for RepositoryLink {
    type V = Seq<char>;

    /// The characters of the link.
    closed spec fn view(&self) -> Seq<char> {
        self.url@
    }
}

impl RepositoryLink {
    /// A builder without allowed schemes, default scheme or link.
    pub fn builder() -> (r: RepositoryLinkBuilder)
        ensures
            r.allowed().len() == 0,
            r.scheme() is None,
            r.link() is None,
    {
        RepositoryLinkBuilder { allowed_schema: Vec::new(), default_scheme: None, repo_link: None }
    }

    /// The link, with its scheme.
    pub fn url(&self) -> (r: &str)
        ensures
            r@ == self@,
    {
        self.url.as_str()
    }

    /// The link as text, with its scheme.
    pub fn to_string(&self) -> (r: String)
        ensures
            r@ == self@,
    {
        self.url.clone()
    }
}

/// Builds a [`RepositoryLink`] from a list of allowed schemes, a default
/// scheme and a link.
#[derive(Debug, Default, Clone)]
pub struct RepositoryLinkBuilder {
    allowed_schema: Vec<String>,
    default_scheme: Option<String>,
    repo_link: Option<String>,
}

impl RepositoryLinkBuilder {
    /// The allowed schemes.
    pub closed spec fn allowed(&self) -> Seq<Seq<char>> {
        texts(self.allowed_schema@)
    }

    /// The default scheme, if one was set.
    pub closed spec fn scheme(&self) -> Option<Seq<char>> {
        match self.default_scheme {
            Some(text) => Some(text@),
            None => None,
        }
    }

    /// The link, if one was set.
    pub closed spec fn link(&self) -> Option<Seq<char>> {
        match self.repo_link {
            Some(text) => Some(text@),
            None => None,
        }
    }

    /// Sets the allowed schemes.
    pub fn allowed_schema(self, schema: Vec<String>) -> (r: Self)
        ensures
            r.allowed() == texts(schema@),
            r.scheme() == self.scheme(),
            r.link() == self.link(),
    {
        RepositoryLinkBuilder {
            allowed_schema: schema,
            default_scheme: self.default_scheme,
            repo_link: self.repo_link,
        }
    }

    /// Sets the scheme for links that name none.
    pub fn default_scheme(self, scheme: impl Into<String>) -> (r: Self)
        ensures
            r.allowed() == self.allowed(),
            exists|text: String| converts(scheme, text) && r.scheme() == Some(text@),
            r.link() == self.link(),
    {
        let text: String = scheme.into();
        assert(converts(scheme, text));
        RepositoryLinkBuilder {
            allowed_schema: self.allowed_schema,
            default_scheme: Some(text),
            repo_link: self.repo_link,
        }
    }

    /// Sets the link.
    pub fn repo_link(self, link: impl Into<String>) -> (r: Self)
        ensures
            r.allowed() == self.allowed(),
            r.scheme() == self.scheme(),
            exists|text: String| converts(link, text) && r.link() == Some(text@),
    {
        let text: String = link.into();
        assert(converts(link, text));
        RepositoryLinkBuilder {
            allowed_schema: self.allowed_schema,
            default_scheme: self.default_scheme,
            repo_link: Some(text),
        }
    }

    /// Checks the allowed schemes, then the default scheme, then the link,
    /// and gives the link with its scheme or the error of the first check
    /// that fails. A check that is reached uses up what it checks: the
    /// default scheme and the link are gone from the builder afterwards.
    pub fn build(&mut self) -> (r: Result<RepositoryLink, Error>)
        ensures
            match built_link(old(self).allowed(), old(self).scheme(), old(self).link()) {
                Ok(full) => r is Ok && r.unwrap()@ == full,
                Err(fault) => r is Err && is_fault(r.unwrap_err(), fault),
            },
            final(self).allowed() == old(self).allowed(),
            final(self).scheme() == if old(self).allowed().len() == 0 {
                old(self).scheme()
            } else {
                None
            },
            final(self).link() == if old(self).allowed().len() == 0 || default_scheme_fault(
                old(self).allowed(),
                old(self).scheme(),
            ) is Some {
                old(self).link()
            } else {
                None
            },
    {
        let allowed_schema = match self.verify_allowed_schema() {
            Ok(list) => list,
            Err(error) => {
                return Err(error);
            },
        };
        let default_schema = match self.verify_default_scheme(&allowed_schema) {
            Ok(scheme) => scheme,
            Err(error) => {
                return Err(error);
            },
        };
        let repo_link = match self.verify_repo_link(&allowed_schema, default_schema.as_str()) {
            Ok(link) => link,
            Err(error) => {
                return Err(error);
            },
        };
        Ok(RepositoryLink { url: repo_link })
    }

    /// The allowed schemes, or an error where there is none.
    fn verify_allowed_schema(&self) -> (r: Result<Vec<String>, Error>)
        ensures
            self.allowed().len() == 0 ==> r is Err && is_fault(
                r.unwrap_err(),
                (Audience::System, no_allowed_message()),
            ),
            self.allowed().len() > 0 ==> r is Ok && texts(r.unwrap()@) == self.allowed(),
    {
        if self.allowed_schema.len() == 0 {
            return Err(
                Error::for_system(
                    Kind::InvalidInput,
                    "No allowed schemes were provided, please provide at least one allowed scheme.",
                ),
            );
        }
        let list = self.allowed_schema.clone();
        assert(texts(list@) =~= texts(self.allowed_schema@));
        Ok(list)
    }

    /// Takes the default scheme out of the builder and gives it back where
    /// it is set, not blank and among the allowed schemes.
    fn verify_default_scheme(&mut self, allowed_schema: &Vec<String>) -> (r: Result<String, Error>)
        ensures
            match default_scheme_fault(texts(allowed_schema@), old(self).scheme()) {
                Some(fault) => r is Err && is_fault(r.unwrap_err(), fault),
                None => r is Ok && Some(r.unwrap()@) == old(self).scheme(),
            },
            final(self).scheme() is None,
            final(self).allowed() == old(self).allowed(),
            final(self).link() == old(self).link(),
    {
        let default_scheme = match self.default_scheme.take() {
            Some(scheme) => scheme,
            None => {
                return Err(
                    Error::for_user(
                        Kind::InvalidInput,
                        "A default scheme was not provided. Please provide a default scheme.",
                    ),
                );
            },
        };
        if blank(default_scheme.as_str()) {
            return Err(
                Error::for_system(
                    Kind::InvalidInput,
                    "The provided default scheme is empty or all whitespace. Please provide a non-empty default scheme.",
                ),
            );
        }
        if !contains_text(allowed_schema.as_slice(), &default_scheme) {
            let listed = debug_format(allowed_schema.as_slice());
            return Err(default_not_allowed(default_scheme.as_str(), listed.as_str()));
        }
        Ok(default_scheme)
    }

    /// Takes the link out of the builder and gives it back with its scheme
    /// where it is set, not blank, well formed and of an allowed scheme.
    fn verify_repo_link(&mut self, allowed_schema: &Vec<String>, default_schema: &str) -> (r:
        Result<String, Error>)
        ensures
            match checked_link(texts(allowed_schema@), default_schema@, old(self).link()) {
                Ok(full) => r is Ok && r.unwrap()@ == full,
                Err(fault) => r is Err && is_fault(r.unwrap_err(), fault),
            },
            final(self).link() is None,
            final(self).allowed() == old(self).allowed(),
            final(self).scheme() == old(self).scheme(),
    {
        let existing_link = match self.repo_link.take() {
            Some(link) => link,
            None => {
                return Err(
                    Error::for_system(
                        Kind::InvalidInput,
                        "A repository link was not provided. Please provide a repository link.",
                    ),
                );
            },
        };
        if blank(existing_link.as_str()) {
            return Err(
                Error::for_system(
                    Kind::InvalidInput,
                    "The provided repository link is empty or all whitespace. Please provide a non-empty repository link.",
                ),
            );
        }
        match self.verify_repo_link_not_malformed(existing_link.as_str()) {
            Ok(()) => {},
            Err(error) => {
                return Err(error);
            },
        }
        let repo_link_with_scheme = self.apply_default_scheme_to_repo_link(
            existing_link.as_str(),
            default_schema,
        );
        match self.verify_repo_link_scheme_is_allowed(
            &repo_link_with_scheme,
            allowed_schema.as_slice(),
            default_schema,
        ) {
            Ok(()) => {},
            Err(error) => {
                return Err(error);
            },
        }
        Ok(repo_link_with_scheme)
    }

    /// An error where the link is malformed.
    fn verify_repo_link_not_malformed(&self, repo_link: &str) -> (r: Result<(), Error>)
        ensures
            !is_malformed(repo_link@) ==> r is Ok,
            is_malformed(repo_link@) ==> r is Err && is_fault(
                r.unwrap_err(),
                (Audience::System, malformed_message(repo_link@)),
            ),
    {
        let chars = chars_of(repo_link);
        if chars.len() > 0 && chars[0].is_alphanumeric() {
            Ok(())
        } else {
            if !single_separator(&chars) {
                return Err(malformed(repo_link));
            }
            Ok(())
        }
    }

    /// The link with a scheme: its own, or the default scheme where it
    /// names none.
    fn apply_default_scheme_to_repo_link(&self, repo_link: &str, default_scheme: &str) -> (r:
        String)
        ensures
            r@ == with_scheme(repo_link@, default_scheme@),
    {
        let chars = chars_of(repo_link);
        let first = find_separator(&chars, 0);
        if first < chars.len() {
            if first == 0 {
                proof {
                    lemma_next_separator(chars@, 0);
                }
                let next = find_separator(&chars, 3);
                default_scheme.to_owned().concat("://").concat(repo_link.substring_char(3, next))
            } else {
                repo_link.to_owned()
            }
        } else {
            default_scheme.to_owned().concat("://").concat(repo_link)
        }
    }

    /// An error where the scheme of the link is not among the allowed ones.
    fn verify_repo_link_scheme_is_allowed(
        &self,
        verified_repo_link: &String,
        allowed_schemes: &[String],
        default_scheme: &str,
    ) -> (r: Result<(), Error>)
        ensures
            texts(allowed_schemes@).contains(scheme_of(verified_repo_link@)) ==> r is Ok,
            !texts(allowed_schemes@).contains(scheme_of(verified_repo_link@)) ==> r is Err
                && is_fault(
                r.unwrap_err(),
                (
                    Audience::System,
                    scheme_not_allowed_message(
                        scheme_of(verified_repo_link@),
                        texts(allowed_schemes@),
                        default_scheme@,
                    ),
                ),
            ),
    {
        let repo_link_schema = self.extract_repo_link_schema(verified_repo_link.as_str());
        if contains_text(allowed_schemes, &repo_link_schema) {
            Ok(())
        } else {
            let listed = debug_format(allowed_schemes);
            Err(scheme_not_allowed(repo_link_schema.as_str(), listed.as_str(), default_scheme))
        }
    }

    /// The scheme of the link: what stands before its first `://`.
    fn extract_repo_link_schema(&self, link: &str) -> (r: String)
        ensures
            r@ == scheme_of(link@),
    {
        let chars = chars_of(link);
        let first = find_separator(&chars, 0);
        link.substring_char(0, first).to_owned()
    }
}

} // verus!
