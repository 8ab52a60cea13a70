//! A compiled expression: its text and its syntax tree.
use crate::expression::error::{Error, Fault};
use crate::expression::parser::{parse, Ast, Parser, Tree};
use crate::expression::tokenizer::Tokenizer;
use crate::util::string::{append_str, collect};
use vstd::prelude::*;

verus! {

/// The text of an expression inside one pair of parentheses.
pub open spec fn wrapped(exp: Seq<char>) -> Seq<char> {
    seq!['('] + exp + seq![')']
}

/// What compiling the text `exp` gives: the tree of the text in parentheses,
/// or the error of reading it.
pub open spec fn compiled(exp: Seq<char>) -> Result<Tree, Fault> {
    match parse(wrapped(exp), None).node {
        Ok(Some(tree)) => Ok(tree),
        Ok(None) => Err(Fault::EmptyExpression),
        Err(e) => Err(e),
    }
}

/// What compiling a text that may be missing gives.
pub open spec fn compiled_opt(exp: Option<Seq<char>>) -> Result<Option<Tree>, Fault> {
    match exp {
        None => Ok(None),
        Some(s) => match compiled(s) {
            Ok(tree) => Ok(Some(tree)),
            Err(e) => Err(e),
        },
    }
}

/// A compiled expression.
#[derive(Debug)]
pub struct Expression {
    raw: String,
    ast: Ast,
}

impl View for Expression {
    type V = Tree;

    closed spec fn view(&self) -> Tree {
        self.ast@
    }
}

/// The view of an expression that may be missing.
pub open spec fn tree_opt(e: Option<Expression>) -> Option<Tree> {
    match e {
        None => None,
        Some(e) => Some(e@),
    }
}

/// The text of an expression that may be missing.
pub open spec fn raw_opt(e: Option<Expression>) -> Option<Seq<char>> {
    match e {
        None => None,
        Some(e) => Some(e.raw()),
    }
}

/// A text that may be missing, inside one pair of parentheses.
pub open spec fn wrapped_opt(s: Option<Seq<char>>) -> Option<Seq<char>> {
    match s {
        None => None,
        Some(s) => Some(wrapped(s)),
    }
}

/// The view of a text that may be missing.
pub open spec fn text_opt(s: Option<String>) -> Option<Seq<char>> {
    match s {
        None => None,
        Some(s) => Some(s@),
    }
}

impl Expression {
    /// The text that was compiled, in its parentheses.
    pub closed spec fn raw(&self) -> Seq<char> {
        self.raw@
    }

    /// The tree is the one that the text compiles to.
    pub closed spec fn wf(&self) -> bool {
        parse(self.raw@, None).node == Ok::<Option<Tree>, Fault>(Some(self.ast@))
    }

    /// Compiles the text of an expression.
    pub fn new(exp: String) -> (r: Result<Self, Error>)
        ensures
            match compiled(exp@) {
                Ok(tree) => r matches Ok(e) && e@ == tree && e.raw() == wrapped(exp@) && e.wf(),
                Err(f) => r matches Err(e) && e@ == f,
            },
    {
        let mut chars: Vec<char> = Vec::new();
        chars.push('(');
        append_str(&mut chars, exp.as_str());
        chars.push(')');
        assert(chars@ =~= wrapped(exp@));
        let raw = collect(&chars);
        let mut parser = Parser::new(Tokenizer::from_chars(chars));
        match parser.parse() {
            Ok(Some(ast)) => Ok(Expression { raw, ast }),
            Ok(None) => Err(Error::EmptyExpression),
            Err(e) => Err(e),
        }
    }

    /// The text that was compiled, in its parentheses.
    pub fn as_str(&self) -> (s: &str)
        ensures
            s@ == self.raw(),
    {
        self.raw.as_str()
    }

    /// The syntax tree.
    pub fn as_ast(&self) -> (ast: &Ast)
        ensures
            ast@ == self@,
    {
        &self.ast
    }

    /// A copy of the expression.
    pub fn replica(&self) -> (r: Self)
        ensures
            r@ == self@,
            r.raw() == self.raw(),
            self.wf() ==> r.wf(),
    {
        Expression { raw: self.raw.clone(), ast: self.ast.replica() }
    }

    /// Compiles a text that may be missing.
    fn compile_one(exp: Option<String>) -> (r: Result<Option<Self>, Error>)
        ensures
            match compiled_opt(text_opt(exp)) {
                Ok(tree) => r matches Ok(e) && tree_opt(e) == tree && raw_opt(e) == wrapped_opt(
                    text_opt(exp),
                ),
                Err(f) => r matches Err(e) && e@ == f,
            },
    {
        match exp {
            None => Ok(None),
            Some(s) => match Expression::new(s) {
                Ok(e) => Ok(Some(e)),
                Err(e) => Err(e),
            },
        }
    }

    /// Compiles a query and a filter, each of which may be missing. The
    /// error of the query comes before that of the filter.
    pub fn compile(q: Option<String>, f: Option<String>) -> (r: Result<
        (Option<Self>, Option<Self>),
        Error,
    >)
        ensures
            match (compiled_opt(text_opt(q)), compiled_opt(text_opt(f))) {
                (Ok(qt), Ok(ft)) => r matches Ok(pair) && tree_opt(pair.0) == qt && tree_opt(
                    pair.1,
                ) == ft && raw_opt(pair.0) == wrapped_opt(text_opt(q)) && raw_opt(pair.1)
                    == wrapped_opt(text_opt(f)),
                (Err(e), _) => r matches Err(x) && x@ == e,
                (Ok(_), Err(e)) => r matches Err(x) && x@ == e,
            },
    {
        let query = match Expression::compile_one(q) {
            Ok(e) => e,
            Err(e) => {
                return Err(e);
            },
        };
        let filter = match Expression::compile_one(f) {
            Ok(e) => e,
            Err(e) => {
                return Err(e);
            },
        };
        Ok((query, filter))
    }
}

} // verus!
