//! Compiles a syntax tree into a predicate that selects files in the store.
use crate::dsl::error::{Error, Fault};
use crate::expression::logic::{eval, outcome, Logic};
use crate::expression::namespace::{
    canonical,
    segments,
    separator,
    shorthand,
    tagspace,
    texts,
    word_kind,
    word_path,
    word_tag,
    Namespec,
    RESERVED_KIND,
    RESERVED_PATH,
    RESERVED_TAG,
};
use crate::expression::parser::{Ast, Tree};
use crate::util::file::UnixFileType;
use crate::util::string::{join, same_text};
use vstd::prelude::*;

verus! {

/// A predicate over the files of the store.
#[derive(Debug, PartialEq, Eq)]
pub enum Predicate {
    /// The files with a tag whose name, behind `::`, is like the pattern.
    Tag(String),
    /// The files whose path, behind `::`, is like the pattern.
    Path(String),
    /// The files of a kind.
    Kind(i64),
    /// The files that the inner predicate does not select.
    Not(Box<Predicate>),
    /// The files that both predicates select.
    And(Box<Predicate>, Box<Predicate>),
    /// The files that either predicate selects.
    Or(Box<Predicate>, Box<Predicate>),
}

/// A [`Predicate`] with its patterns as sequences of characters.
pub enum Condition {
    Tag(Seq<char>),
    Path(Seq<char>),
    Kind(int),
    Not(Box<Condition>),
    And(Box<Condition>, Box<Condition>),
    Or(Box<Condition>, Box<Condition>),
}

impl Predicate {
    /// The predicate with its patterns as sequences of characters.
    pub open spec fn condition(&self) -> Condition
        decreases self,
    {
        match self {
            Predicate::Tag(s) => Condition::Tag(s@),
            Predicate::Path(s) => Condition::Path(s@),
            Predicate::Kind(k) => Condition::Kind(*k as int),
            Predicate::Not(a) => Condition::Not(Box::new(a.condition())),
            Predicate::And(a, b) => Condition::And(
                Box::new(a.condition()),
                Box::new(b.condition()),
            ),
            Predicate::Or(a, b) => Condition::Or(Box::new(a.condition()), Box::new(b.condition())),
        }
    }
}

impl View for Predicate {
    type V = Condition;

    open spec fn view(&self) -> Condition {
        self.condition()
    }
}

/// The kind that a name stands for, behind `::`.
pub open spec fn kind_named(name: Seq<char>) -> Option<UnixFileType> {
    if name == seq![':', ':', 'f', 'i', 'l', 'e'] {
        Some(UnixFileType::File)
    } else if name == seq![':', ':', 'f', 'i', 'f', 'o'] {
        Some(UnixFileType::Fifo)
    } else if name == seq![':', ':', 'l', 'i', 'n', 'k'] {
        Some(UnixFileType::Symlink)
    } else if name == seq![':', ':', 'd', 'i', 'r'] {
        Some(UnixFileType::Dir)
    } else if name == seq![':', ':', 's', 'o', 'c', 'k', 'e', 't'] {
        Some(UnixFileType::Socket)
    } else if name == seq![':', ':', 'b', 'l', 'k', 'd', 'e', 'v'] {
        Some(UnixFileType::BlockDevice)
    } else if name == seq![':', ':', 'c', 'h', 'r', 'd', 'e', 'v'] {
        Some(UnixFileType::CharDevice)
    } else {
        None
    }
}

/// The predicate that a payload selects files by: its shorthands are written
/// out, it is made canonical, and its reserved word says what the rest is
/// compared with. A payload without a reserved word or a segment in its
/// place, a reserved word other than `tag`, `path` and `kind`, and a kind that
/// has no name are refused.
pub open spec fn selection(payload: Seq<char>) -> Result<Condition, Fault> {
    let canon = canonical(segments(shorthand(payload)), word_tag());
    if canon.len() < 2 {
        Err(Fault::InvalidNamespace { name: Seq::<char>::empty() })
    } else {
        let reserved = canon[1].text();
        let rest = join(texts(tagspace(canon)), separator());
        if reserved == word_tag() {
            Ok(Condition::Tag(rest))
        } else if reserved == word_path() {
            Ok(Condition::Path(rest))
        } else if reserved == word_kind() {
            match kind_named(rest) {
                Some(kind) => Ok(Condition::Kind(kind.code())),
                None => Err(Fault::InvalidNamespace { name: rest }),
            }
        } else {
            Err(Fault::InvalidNamespace { name: reserved })
        }
    }
}

/// The kind that a name stands for, behind `::`.
fn kind_of(name: &str) -> (r: Option<UnixFileType>)
    ensures
        r == kind_named(name@),
{
    proof {
        reveal_strlit("::file");
        reveal_strlit("::fifo");
        reveal_strlit("::link");
        reveal_strlit("::dir");
        reveal_strlit("::socket");
        reveal_strlit("::blkdev");
        reveal_strlit("::chrdev");
        assert("::file"@ =~= seq![':', ':', 'f', 'i', 'l', 'e']);
        assert("::fifo"@ =~= seq![':', ':', 'f', 'i', 'f', 'o']);
        assert("::link"@ =~= seq![':', ':', 'l', 'i', 'n', 'k']);
        assert("::dir"@ =~= seq![':', ':', 'd', 'i', 'r']);
        assert("::socket"@ =~= seq![':', ':', 's', 'o', 'c', 'k', 'e', 't']);
        assert("::blkdev"@ =~= seq![':', ':', 'b', 'l', 'k', 'd', 'e', 'v']);
        assert("::chrdev"@ =~= seq![':', ':', 'c', 'h', 'r', 'd', 'e', 'v']);
    }
    if same_text(name, "::file") {
        Some(UnixFileType::File)
    } else if same_text(name, "::fifo") {
        Some(UnixFileType::Fifo)
    } else if same_text(name, "::link") {
        Some(UnixFileType::Symlink)
    } else if same_text(name, "::dir") {
        Some(UnixFileType::Dir)
    } else if same_text(name, "::socket") {
        Some(UnixFileType::Socket)
    } else if same_text(name, "::blkdev") {
        Some(UnixFileType::BlockDevice)
    } else if same_text(name, "::chrdev") {
        Some(UnixFileType::CharDevice)
    } else {
        None
    }
}

/// The store-side meaning: leaves select files, operators combine
/// selections.
pub struct Meaning;

impl crate::expression::logic::Dsl for Meaning {
    type Context = ();

    type Input = ();

    type Output = Predicate;

    type Failure = Error;

    open spec fn inv(&self, context: &()) -> bool {
        true
    }

    open spec fn accepts(&self, input: &()) -> bool {
        true
    }

    open spec fn id_spec(&self, modifier: char, payload: Seq<char>, input: &()) -> Result<
        Condition,
        Fault,
    > {
        if modifier == '=' {
            selection(payload)
        } else {
            Err(Fault::InvalidModifier { c: modifier })
        }
    }

    open spec fn not_spec(&self, v: Condition) -> Result<Condition, Fault> {
        Ok(Condition::Not(Box::new(v)))
    }

    open spec fn and_spec(&self, a: Condition, b: Condition) -> Result<Condition, Fault> {
        Ok(Condition::And(Box::new(a), Box::new(b)))
    }

    open spec fn or_spec(&self, a: Condition, b: Condition) -> Result<Condition, Fault> {
        Ok(Condition::Or(Box::new(a), Box::new(b)))
    }

    fn id(&self, context: &mut (), modifier: char, payload: &str, input: &()) -> (r: Result<
        Predicate,
        Error,
    >) {
        if modifier == '=' {
            subselect(payload)
        } else {
            Err(Error::InvalidModifier { c: modifier })
        }
    }

    fn not(&self, context: &mut (), v: Predicate) -> (r: Result<Predicate, Error>) {
        Ok(Predicate::Not(Box::new(v)))
    }

    fn and(&self, context: &mut (), a: Predicate, b: Predicate) -> (r: Result<Predicate, Error>) {
        Ok(Predicate::And(Box::new(a), Box::new(b)))
    }

    fn or(&self, context: &mut (), a: Predicate, b: Predicate) -> (r: Result<Predicate, Error>) {
        Ok(Predicate::Or(Box::new(a), Box::new(b)))
    }
}

/// The predicate that a payload selects files by.
pub fn subselect(payload: &str) -> (r: Result<Predicate, Error>)
    ensures
        outcome(r) == selection(payload@),
{
    proof {
        reveal_strlit("tag");
        reveal_strlit("path");
        reveal_strlit("kind");
        assert("tag"@ =~= word_tag());
        assert("path"@ =~= word_path());
        assert("kind"@ =~= word_kind());
    }
    let expression = Namespec::apply_shorthand_syntax(payload);
    let (canon, user) = match Namespec::try_canonicalize_user_expression(expression.as_str()) {
        Some(pair) => pair,
        None => {
            return Err(Error::InvalidNamespace { name: String::new() });
        },
    };
    let rest = user.to_string();
    let reserved = canon.get_reserved().as_str();
    if same_text(reserved, RESERVED_TAG) {
        Ok(Predicate::Tag(rest))
    } else if same_text(reserved, RESERVED_PATH) {
        Ok(Predicate::Path(rest))
    } else if same_text(reserved, RESERVED_KIND) {
        match kind_of(rest.as_str()) {
            Some(kind) => Ok(Predicate::Kind(kind.to_i64())),
            None => Err(Error::InvalidNamespace { name: rest }),
        }
    } else {
        Err(Error::InvalidNamespace { name: reserved.to_owned() })
    }
}

/// The store-side language: compiles a syntax tree into a predicate.
pub struct Dsl(Logic<Meaning>);

impl Dsl {
    /// The store-side language.
    pub fn new() -> (d: Self) {
        Dsl(Logic::new(Meaning))
    }

    /// The predicate that a tree selects files by.
    pub fn evaluate(&self, ast: &Ast, context: &mut (), input: &()) -> (r: Result<Predicate, Error>)
        ensures
            outcome(r) == compiled(ast@),
    {
        self.0.evaluate(ast, context, input)
    }
}

/// The predicate that a tree selects files by: the selections of its leaves,
/// combined as its operators say.
pub open spec fn compiled(tree: Tree) -> Result<Condition, Fault> {
    eval(&Meaning, tree, &())
}

} // verus!
