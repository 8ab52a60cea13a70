//! Builds syntax trees from tokens.
use crate::expression::error::{Error, Fault};
use crate::expression::tokenizer::{
    lemma_next_token,
    next_token,
    BinaryToken,
    Lexeme,
    Token,
    Tokenizer,
    UnaryToken,
    ValueToken,
};
use vstd::prelude::*;

verus! {

/// An operator node of a syntax tree.
#[derive(Debug, PartialEq, Eq)]
pub enum Operator {
    Not(Box<Ast>),
    And(Box<Ast>, Box<Ast>),
    Or(Box<Ast>, Box<Ast>),
}

/// A node of a syntax tree.
#[derive(Debug, PartialEq, Eq)]
pub enum Ast {
    /// A modifier and its payload.
    Expr(char, String),
    /// An operator and its operands.
    Operation(Operator),
}

/// An [`Ast`] with its payloads as sequences of characters.
pub enum Tree {
    Expr(char, Seq<char>),
    Not(Box<Tree>),
    And(Box<Tree>, Box<Tree>),
    Or(Box<Tree>, Box<Tree>),
}

impl View for Ast {
    type V = Tree;

    open spec fn view(&self) -> Tree {
        self.tree()
    }
}

impl Ast {
    /// The tree with its payloads as sequences of characters.
    pub open spec fn tree(&self) -> Tree
        decreases self,
    {
        match self {
            Ast::Expr(c, s) => Tree::Expr(*c, s@),
            Ast::Operation(Operator::Not(a)) => Tree::Not(Box::new(a.tree())),
            Ast::Operation(Operator::And(a, b)) => Tree::And(
                Box::new(a.tree()),
                Box::new(b.tree()),
            ),
            Ast::Operation(Operator::Or(a, b)) => Tree::Or(Box::new(a.tree()), Box::new(b.tree())),
        }
    }

    /// A copy of the tree.
    pub fn replica(&self) -> (r: Ast)
        ensures
            r@ == self@,
        decreases self,
    {
        match self {
            Ast::Expr(c, s) => Ast::Expr(*c, s.clone()),
            Ast::Operation(Operator::Not(a)) => Ast::Operation(
                Operator::Not(Box::new(a.replica())),
            ),
            Ast::Operation(Operator::And(a, b)) => Ast::Operation(
                Operator::And(Box::new(a.replica()), Box::new(b.replica())),
            ),
            Ast::Operation(Operator::Or(a, b)) => Ast::Operation(
                Operator::Or(Box::new(a.replica()), Box::new(b.replica())),
            ),
        }
    }
}

/// What parsing gives: a tree, nothing or an error, and the characters that
/// are left.
pub struct Parsed {
    pub node: Result<Option<Tree>, Fault>,
    pub rest: Seq<char>,
}

/// The tree of a binary operator.
pub open spec fn binary(op: Lexeme, lhs: Tree, rhs: Tree) -> Tree {
    if op == Lexeme::And {
        Tree::And(Box::new(lhs), Box::new(rhs))
    } else {
        Tree::Or(Box::new(lhs), Box::new(rhs))
    }
}

/// The operand that an operator or an opening parenthesis asks for: what
/// parsing the characters after it gives, where running out of tokens is an
/// error.
pub open spec fn operand(s: Seq<char>) -> Parsed
    decreases s.len(), 1int,
{
    let p = parse(s, None);
    match p.node {
        Ok(None) => Parsed { node: Err(Fault::UnexpectedEof), rest: p.rest },
        _ => p,
    }
}

/// Parsing the characters `s` with `node` as the tree read so far.
///
/// Each token either replaces the current tree (a payload, a parenthesis and
/// its operand, `!` and its operand) or takes it as the left operand of `&`
/// or `|`, whose right operand is what parsing the following characters
/// gives. A closing parenthesis hands the current tree to the caller.
pub open spec fn parse(s: Seq<char>, node: Option<Tree>) -> Parsed
    decreases s.len(), 0int,
{
    let lex = next_token(s);
    match lex.token {
        None => Parsed { node: Ok(node), rest: lex.rest },
        Some(Err(e)) => Parsed { node: Err(e), rest: lex.rest },
        Some(Ok(token)) => if lex.rest.len() >= s.len() {
            Parsed { node: Ok(node), rest: lex.rest }
        } else {
            match token {
                Lexeme::Close => Parsed { node: Ok(node), rest: lex.rest },
                Lexeme::Expr(c, payload) => parse(lex.rest, Some(Tree::Expr(c, payload))),
                Lexeme::Open => {
                    let inner = operand(lex.rest);
                    match inner.node {
                        Ok(Some(tree)) if inner.rest.len() <= lex.rest.len() => parse(
                            inner.rest,
                            Some(tree),
                        ),
                        _ => inner,
                    }
                },
                Lexeme::Not => {
                    let inner = operand(lex.rest);
                    match inner.node {
                        Ok(Some(tree)) if inner.rest.len() <= lex.rest.len() => parse(
                            inner.rest,
                            Some(Tree::Not(Box::new(tree))),
                        ),
                        _ => inner,
                    }
                },
                Lexeme::And | Lexeme::Or => match node {
                    None => Parsed { node: Err(Fault::MissingValue), rest: lex.rest },
                    Some(lhs) => {
                        let inner = operand(lex.rest);
                        match inner.node {
                            Ok(Some(rhs)) if inner.rest.len() <= lex.rest.len() => parse(
                                inner.rest,
                                Some(binary(token, lhs, rhs)),
                            ),
                            _ => inner,
                        }
                    },
                },
            }
        },
    }
}

/// Parsing leaves a suffix of what it was given.
pub proof fn lemma_parse(s: Seq<char>, node: Option<Tree>)
    ensures
        parse(s, node).rest.len() <= s.len(),
    decreases s.len(),
{
    lemma_next_token(s);
    let lex = next_token(s);
    match lex.token {
        Some(Ok(token)) => {
            match token {
                Lexeme::Close => {},
                Lexeme::Expr(c, payload) => {
                    lemma_parse(lex.rest, Some(Tree::Expr(c, payload)));
                },
                Lexeme::Open => {
                    lemma_parse(lex.rest, None);
                    let inner = operand(lex.rest);
                    if let Ok(Some(tree)) = inner.node {
                        lemma_parse(inner.rest, Some(tree));
                    }
                },
                Lexeme::Not => {
                    lemma_parse(lex.rest, None);
                    let inner = operand(lex.rest);
                    if let Ok(Some(tree)) = inner.node {
                        lemma_parse(inner.rest, Some(Tree::Not(Box::new(tree))));
                    }
                },
                Lexeme::And | Lexeme::Or => {
                    if let Some(lhs) = node {
                        lemma_parse(lex.rest, None);
                        let inner = operand(lex.rest);
                        if let Ok(Some(rhs)) = inner.node {
                            lemma_parse(inner.rest, Some(binary(token, lhs, rhs)));
                        }
                    }
                },
            }
        },
        _ => {},
    }
}

/// An operand leaves a suffix of what it was given.
pub proof fn lemma_operand(s: Seq<char>)
    ensures
        operand(s).rest.len() <= s.len(),
{
    lemma_parse(s, None);
}

/// The view of a tree that may be missing.
pub open spec fn tree_of(node: Option<Ast>) -> Option<Tree> {
    match node {
        None => None,
        Some(ast) => Some(ast@),
    }
}

/// The view of what [`Parser::parse`] returns.
pub open spec fn parsed(r: Result<Option<Ast>, Error>) -> Result<Option<Tree>, Fault> {
    match r {
        Ok(None) => Ok(None),
        Ok(Some(ast)) => Ok(Some(ast@)),
        Err(e) => Err(e@),
    }
}

/// Parses the tokens of a [`Tokenizer`].
pub struct Parser {
    stream: Tokenizer,
}

impl Parser {
    /// The tokenizer is well formed.
    pub closed spec fn wf(&self) -> bool {
        self.stream.wf()
    }

    /// The characters that have not been read.
    pub closed spec fn rest(&self) -> Seq<char> {
        self.stream.rest()
    }

    /// A parser for the tokens of `stream`.
    pub fn new(stream: Tokenizer) -> (p: Self)
        requires
            stream.wf(),
        ensures
            p.wf(),
            p.rest() == stream.rest(),
    {
        Parser { stream }
    }

    /// Parses the operand that an operator or an opening parenthesis asks
    /// for.
    fn required(&mut self) -> (r: Result<Ast, Error>)
        requires
            old(self).wf(),
        ensures
            final(self).wf(),
            final(self).rest() == operand(old(self).rest()).rest,
            parsed(
                match r {
                    Ok(ast) => Ok(Some(ast)),
                    Err(e) => Err(e),
                },
            ) == operand(old(self).rest()).node,
        decreases old(self).rest().len(), 1int,
    {
        match self.parse_node(None) {
            Ok(Some(ast)) => Ok(ast),
            Ok(None) => Err(Error::UnexpectedEof),
            Err(e) => Err(e),
        }
    }

    /// Parses with `node` as the tree read so far.
    fn parse_node(&mut self, seed: Option<Ast>) -> (r: Result<Option<Ast>, Error>)
        requires
            old(self).wf(),
        ensures
            final(self).wf(),
            final(self).rest() == parse(old(self).rest(), tree_of(seed)).rest,
            parsed(r) == parse(old(self).rest(), tree_of(seed)).node,
        decreases old(self).rest().len(), 0int,
    {
        let ghost start = self.rest();
        let ghost first = tree_of(seed);
        let mut node = seed;
        loop
            invariant
                self.wf(),
                self.rest().len() <= start.len(),
                start == old(self).rest(),
                first == tree_of(seed),
                parse(start, first) == parse(self.rest(), tree_of(node)),
            decreases self.rest().len(),
        {
            let ghost here = self.rest();
            let ghost current = tree_of(node);
            proof {
                lemma_next_token(here);
            }
            let token = match self.stream.next() {
                None => {
                    return Ok(node);
                },
                Some(Err(e)) => {
                    return Err(e);
                },
                Some(Ok(token)) => token,
            };
            let ghost after = self.rest();
            proof {
                lemma_operand(after);
            }
            match token {
                Token::Close(_) => {
                    return Ok(node);
                },
                Token::Value(ValueToken::Expr(c, s)) => {
                    node = Some(Ast::Expr(c, s));
                },
                Token::Value(ValueToken::Block) => {
                    match self.required() {
                        Ok(ast) => {
                            node = Some(ast);
                        },
                        Err(e) => {
                            return Err(e);
                        },
                    }
                },
                Token::Unary(UnaryToken::Not) => {
                    match self.required() {
                        Ok(ast) => {
                            node = Some(Ast::Operation(Operator::Not(Box::new(ast))));
                        },
                        Err(e) => {
                            return Err(e);
                        },
                    }
                },
                Token::Binary(op) => {
                    let lhs = match node {
                        None => {
                            return Err(Error::MissingValue);
                        },
                        Some(lhs) => lhs,
                    };
                    match self.required() {
                        Ok(rhs) => {
                            node = Some(
                                match op {
                                    BinaryToken::And => Ast::Operation(
                                        Operator::And(Box::new(lhs), Box::new(rhs)),
                                    ),
                                    BinaryToken::Or => Ast::Operation(
                                        Operator::Or(Box::new(lhs), Box::new(rhs)),
                                    ),
                                },
                            );
                        },
                        Err(e) => {
                            return Err(e);
                        },
                    }
                },
            }
        }
    }

    /// Parses the tokens into a tree. Gives nothing where there is no token
    /// before the end or before a closing parenthesis.
    pub fn parse(&mut self) -> (r: Result<Option<Ast>, Error>)
        requires
            old(self).wf(),
        ensures
            final(self).wf(),
            parsed(r) == parse(old(self).rest(), None).node,
            final(self).rest() == parse(old(self).rest(), None).rest,
    {
        self.parse_node(None)
    }
}

} // verus!
