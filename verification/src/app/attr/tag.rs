//! Tags: interned, immutable names.
use crate::app::attr::api::{sanitize, sanitized};
use crate::app::attr::error::Error;
use crate::model::tag;
use crate::util::string::same_text;
use crate::util::table::Key;
use internship::IStr;
use vstd::prelude::*;

verus! {

/// The interned string of the `internship` crate.
#[verifier::external_type_specification]
#[verifier::external_body]
pub struct ExIStr(IStr);

/// The text that an interned string holds.
pub uninterp spec fn interned(s: IStr) -> Seq<char>;

/// `IStr::new` interns a text: the result holds the text that was given.
pub assume_specification[ IStr::new ](src: &str) -> (s: IStr)
    ensures
        interned(s) == src@,
;

/// `IStr::as_str` hands out the text that an interned string holds.
pub assume_specification[ IStr::as_str ](s: &IStr) -> (text: &str)
    ensures
        text@ == interned(*s),
;

/// A tag: a name that is kept once, however many files have it.
#[derive(Hash, Eq, PartialEq, Debug)]
pub struct Tag(IStr);

impl View for Tag {
    type V = Seq<char>;

    closed spec fn view(&self) -> Seq<char> {
        interned(self.0)
    }
}

impl Key for Tag {
    fn same(&self, other: &Self) -> (r: bool) {
        same_text(self.0.as_str(), other.0.as_str())
    }

    fn replica(&self) -> (r: Self) {
        Tag(IStr::new(self.0.as_str()))
    }
}

impl Tag {
    /// The name of the tag.
    pub fn as_str(&self) -> (s: &str)
        ensures
            s@ == self@,
    {
        self.0.as_str()
    }

    /// The tag of a name. A name that is empty, or that holds `{{`, `}}` or
    /// `,`, is refused.
    pub fn new(name: &str) -> (r: Result<Self, Error>)
        ensures
            match sanitized(name@) {
                Ok(t) => r matches Ok(tag) && tag@ == t,
                Err(f) => r matches Err(e) && e@ == f,
            },
    {
        match sanitize(name) {
            Ok(clean) => Ok(Tag(IStr::new(clean))),
            Err(e) => Err(e),
        }
    }

    /// The natural key of the tag in the index.
    pub fn ident(&self) -> (i: tag::Ident)
        ensures
            i@ == self@,
    {
        tag::Ident { name: self.0.as_str().to_owned() }
    }
}

} // verus!
