//! What the filter-side meaning keeps between calls: compiled regular
//! expressions and compiled comparisons, each by its text.
use crate::dsl::error::{Error, Fault};
use crate::expression::comparison::{relation_of, Comparison};
use crate::expression::error as expression;
use crate::util::table::VecMap;
use regex::Regex;
use vstd::prelude::*;

verus! {

/// The compiled regular expression of the `regex` crate.
#[verifier::external_type_specification]
#[verifier::external_body]
pub struct ExRegex(Regex);

/// Whether a text is a regular expression that the `regex` crate compiles.
pub uninterp spec fn regex_compiles(pattern: Seq<char>) -> bool;

/// The text that a compiled regular expression was compiled from.
pub uninterp spec fn regex_source(regex: Regex) -> Seq<char>;

/// Whether the regular expression of a text, compiled by `Regex::new`,
/// matches somewhere in another.
pub uninterp spec fn regex_matches(pattern: Seq<char>, text: Seq<char>) -> bool;

/// Whether a compiled regular expression was compiled by `Regex::new`, with
/// the options that `Regex::new` compiles with.
pub uninterp spec fn regex_plain(regex: Regex) -> bool;

/// `Regex::new` compiles a text, or refuses it; what it compiled keeps the
/// text, and was compiled with the options of `Regex::new`.
#[verifier::external_body]
fn compile(pattern: &str) -> (r: Option<Regex>)
    ensures
        r is Some <==> regex_compiles(pattern@),
        r matches Some(regex) ==> regex_source(regex) == pattern@ && regex_plain(regex),
{
    Regex::new(pattern).ok()
}

/// `Regex::is_match` tells whether the expression matches somewhere in the
/// text. For an expression that `Regex::new` compiled, that depends on the
/// text of the expression and on the text that is searched alone.
#[verifier::external_body]
pub(crate) fn is_match(regex: &Regex, text: &str) -> (b: bool)
    requires
        regex_plain(*regex),
    ensures
        b == regex_matches(regex_source(*regex), text@),
{
    regex.is_match(text)
}

/// Caches compiled regular expressions and comparisons.
pub struct Context {
    regexes: VecMap<String, Regex>,
    comparisons: VecMap<String, Comparison>,
}

impl Context {
    /// Each cached value is what its text compiles to.
    pub closed spec fn wf(&self) -> bool {
        &&& self.regexes.wf()
        &&& self.comparisons.wf()
        &&& forall|p: Seq<char>| #[trigger]
            self.regexes@.contains_key(p) ==> regex_source(self.regexes@[p]) == p
                && regex_compiles(p) && regex_plain(self.regexes@[p])
        &&& forall|e: Seq<char>| #[trigger]
            self.comparisons@.contains_key(e) ==> relation_of(e) == Some(self.comparisons@[e]@)
    }

    /// The texts whose regular expressions are cached.
    pub closed spec fn patterns(&self) -> Set<Seq<char>> {
        self.regexes@.dom()
    }

    /// The texts whose comparisons are cached.
    pub closed spec fn expressions(&self) -> Set<Seq<char>> {
        self.comparisons@.dom()
    }

    /// An empty cache.
    pub fn new() -> (c: Self)
        ensures
            c.wf(),
            c.patterns() == Set::<Seq<char>>::empty(),
            c.expressions() == Set::<Seq<char>>::empty(),
    {
        let c = Context { regexes: VecMap::new(), comparisons: VecMap::new() };
        assert(c.patterns() =~= Set::<Seq<char>>::empty());
        assert(c.expressions() =~= Set::<Seq<char>>::empty());
        c
    }

    /// The compiled regular expression of a text, from the cache where it is
    /// there.
    pub fn regex(&mut self, exp: &str) -> (r: Result<&Regex, Error>)
        requires
            old(self).wf(),
        ensures
            final(self).wf(),
            final(self).expressions() == old(self).expressions(),
            if regex_compiles(exp@) {
                &&& r matches Ok(regex) && regex_source(*regex) == exp@ && regex_plain(*regex)
                &&& final(self).patterns() == old(self).patterns().insert(exp@)
            } else {
                &&& r matches Err(e) && e@ == (Fault::InvalidPattern { pattern: exp@ })
                &&& final(self).patterns() == old(self).patterns()
            },
    {
        let key = exp.to_owned();
        if !self.regexes.contains_key(&key) {
            match compile(exp) {
                Some(regex) => {
                    self.regexes.insert(exp.to_owned(), regex);
                },
                None => {
                    return Err(Error::InvalidPattern { pattern: key });
                },
            }
        } else {
            assert(self.patterns().insert(exp@) =~= self.patterns());
        }
        match self.regexes.get(&key) {
            Some(regex) => Ok(regex),
            None => Err(Error::InvalidPattern { pattern: key }),
        }
    }

    /// The compiled regular expression of a text, where the cache has it.
    pub fn cached(&self, exp: &str) -> (r: Option<&Regex>)
        requires
            self.wf(),
        ensures
            r is Some <==> self.patterns().contains(exp@),
            r matches Some(regex) ==> regex_source(*regex) == exp@ && regex_compiles(exp@)
                && regex_plain(*regex),
    {
        let key = exp.to_owned();
        self.regexes.get(&key)
    }

    /// The compiled comparison of a text, from the cache where it is there.
    pub fn comparison(&mut self, exp: &str) -> (r: Result<&Comparison, expression::Error>)
        requires
            old(self).wf(),
        ensures
            final(self).wf(),
            final(self).patterns() == old(self).patterns(),
            match relation_of(exp@) {
                Some(rel) => r matches Ok(c) && c@ == rel && final(self).expressions() == old(
                    self,
                ).expressions().insert(exp@),
                None => r matches Err(e) && e@ == (expression::Fault::FailedCapture {
                    expression: exp@,
                }) && final(self).expressions() == old(self).expressions(),
            },
    {
        let key = exp.to_owned();
        if !self.comparisons.contains_key(&key) {
            match Comparison::new(exp) {
                Ok(c) => {
                    self.comparisons.insert(exp.to_owned(), c);
                },
                Err(e) => {
                    return Err(e);
                },
            }
        } else {
            assert(self.expressions().insert(exp@) =~= self.expressions());
        }
        match self.comparisons.get(&key) {
            Some(c) => Ok(c),
            None => Err(expression::Error::FailedCapture { expression: key }),
        }
    }
}

} // verus!
