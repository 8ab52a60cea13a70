//! Compiles a syntax tree into a predicate that selects files through the
//! associations of the store: by the paths of the files and the names of the
//! tags of its rows.
use crate::dsl::error::{Error, Fault};
use crate::dsl::query::dsl::{Condition, Predicate};
use crate::expression::logic::{eval, outcome, Logic};
use crate::expression::namespace::{
    canonical,
    segments,
    separator,
    shorthand,
    tagspace,
    texts,
    word_path,
    word_tag,
    Namespec,
    RESERVED_PATH,
    RESERVED_TAG,
};
use crate::expression::parser::{Ast, Tree};
use crate::util::string::{join, same_text};
use vstd::prelude::*;

verus! {

/// The predicate that a payload selects rows by: its shorthands are written
/// out, it is made canonical, and its reserved word says what the rest is
/// compared with. A payload without a reserved word or a segment in its
/// place, and a reserved word other than `tag` and `path`, are refused.
pub open spec fn pairing(payload: Seq<char>) -> Result<Condition, Fault> {
    let canon = canonical(segments(shorthand(payload)), word_tag());
    if canon.len() < 2 {
        Err(Fault::InvalidNamespace { name: Seq::<char>::empty() })
    } else {
        let reserved = canon[1].text();
        let rest = join(texts(tagspace(canon)), separator());
        if reserved == word_tag() {
            Ok(Condition::Tag(rest))
        } else if reserved == word_path() {
            Ok(Condition::Path(rest))
        } else {
            Err(Fault::InvalidNamespace { name: reserved })
        }
    }
}

/// The meaning over the associations: leaves select rows, operators combine
/// selections.
pub struct Meaning;

impl crate::expression::logic::Dsl for Meaning {
    type Context = ();

    type Input = ();

    type Output = Predicate;

    type Failure = Error;

    open spec fn inv(&self, context: &()) -> bool {
        true
    }

    open spec fn accepts(&self, input: &()) -> bool {
        true
    }

    open spec fn id_spec(&self, modifier: char, payload: Seq<char>, input: &()) -> Result<
        Condition,
        Fault,
    > {
        if modifier == '=' {
            pairing(payload)
        } else {
            Err(Fault::InvalidModifier { c: modifier })
        }
    }

    open spec fn not_spec(&self, v: Condition) -> Result<Condition, Fault> {
        Ok(Condition::Not(Box::new(v)))
    }

    open spec fn and_spec(&self, a: Condition, b: Condition) -> Result<Condition, Fault> {
        Ok(Condition::And(Box::new(a), Box::new(b)))
    }

    open spec fn or_spec(&self, a: Condition, b: Condition) -> Result<Condition, Fault> {
        Ok(Condition::Or(Box::new(a), Box::new(b)))
    }

    fn id(&self, context: &mut (), modifier: char, payload: &str, input: &()) -> (r: Result<
        Predicate,
        Error,
    >) {
        if modifier == '=' {
            subselect(payload)
        } else {
            Err(Error::InvalidModifier { c: modifier })
        }
    }

    fn not(&self, context: &mut (), v: Predicate) -> (r: Result<Predicate, Error>) {
        Ok(Predicate::Not(Box::new(v)))
    }

    fn and(&self, context: &mut (), a: Predicate, b: Predicate) -> (r: Result<Predicate, Error>) {
        Ok(Predicate::And(Box::new(a), Box::new(b)))
    }

    fn or(&self, context: &mut (), a: Predicate, b: Predicate) -> (r: Result<Predicate, Error>) {
        Ok(Predicate::Or(Box::new(a), Box::new(b)))
    }
}

/// The predicate that a payload selects rows by.
pub fn subselect(payload: &str) -> (r: Result<Predicate, Error>)
    ensures
        outcome(r) == pairing(payload@),
{
    proof {
        reveal_strlit("tag");
        reveal_strlit("path");
        assert("tag"@ =~= word_tag());
        assert("path"@ =~= word_path());
    }
    let expression = Namespec::apply_shorthand_syntax(payload);
    let (canon, user) = match Namespec::try_canonicalize_user_expression(expression.as_str()) {
        Some(pair) => pair,
        None => {
            return Err(Error::InvalidNamespace { name: String::new() });
        },
    };
    let rest = user.to_string();
    let reserved = canon.get_reserved().as_str();
    if same_text(reserved, RESERVED_TAG) {
        Ok(Predicate::Tag(rest))
    } else if same_text(reserved, RESERVED_PATH) {
        Ok(Predicate::Path(rest))
    } else {
        Err(Error::InvalidNamespace { name: reserved.to_owned() })
    }
}

/// The language over the associations: compiles a syntax tree into a
/// predicate.
pub struct Dsl(Logic<Meaning>);

impl Dsl {
    /// The language over the associations.
    pub fn new() -> (d: Self) {
        Dsl(Logic::new(Meaning))
    }

    /// The predicate that a tree selects rows by.
    pub fn evaluate(&self, ast: &Ast, context: &mut (), input: &()) -> (r: Result<Predicate, Error>)
        ensures
            outcome(r) == compiled(ast@),
    {
        self.0.evaluate(ast, context, input)
    }
}

/// The predicate that a tree selects rows by: the selections of its leaves,
/// combined as its operators say.
pub open spec fn compiled(tree: Tree) -> Result<Condition, Fault> {
    eval(&Meaning, tree, &())
}

} // verus!
