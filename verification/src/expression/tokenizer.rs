//! Turns the characters of an expression into tokens.
use crate::expression::error::{Error, Fault};
use crate::util::string::{collect, is_space, is_whitespace, to_chars};
use vstd::prelude::*;

verus! {

/// A token that yields a value.
#[derive(Debug, Clone, PartialEq, Eq)]
pub enum ValueToken {
    /// An opening parenthesis.
    Block,
    /// A modifier and its payload.
    Expr(char, String),
}

/// A token that stands for a unary operator.
#[derive(Debug, Clone, PartialEq, Eq)]
pub enum UnaryToken {
    Not,
}

/// A token that stands for a binary operator.
#[derive(Debug, Clone, PartialEq, Eq)]
pub enum BinaryToken {
    And,
    Or,
}

/// A token that closes what a value token opened.
#[derive(Debug, Clone, PartialEq, Eq)]
pub enum CloseToken {
    /// A closing parenthesis.
    Block,
}

/// A single token.
#[derive(Debug, Clone, PartialEq, Eq)]
pub enum Token {
    Value(ValueToken),
    Unary(UnaryToken),
    Binary(BinaryToken),
    Close(CloseToken),
}

/// A [`Token`] with its payload as a sequence of characters.
pub enum Lexeme {
    Open,
    Close,
    Not,
    And,
    Or,
    Expr(char, Seq<char>),
}

impl View for Token {
    type V = Lexeme;

    open spec fn view(&self) -> Lexeme {
        match self {
            Token::Value(ValueToken::Block) => Lexeme::Open,
            Token::Value(ValueToken::Expr(c, s)) => Lexeme::Expr(*c, s@),
            Token::Unary(UnaryToken::Not) => Lexeme::Not,
            Token::Binary(BinaryToken::And) => Lexeme::And,
            Token::Binary(BinaryToken::Or) => Lexeme::Or,
            Token::Close(CloseToken::Block) => Lexeme::Close,
        }
    }
}

/// What reading one token gives: the token, an error or nothing, and the
/// characters that are left.
pub struct Lexed {
    pub token: Option<Result<Lexeme, Fault>>,
    pub rest: Seq<char>,
}

/// The character that opens a payload.
pub const OPEN: char = '[';

/// The character that closes a payload.
pub const CLOSE: char = ']';

/// The character that takes the meaning from the one after it.
pub const ESCAPE: char = '\\';

/// `s` without its leading white space.
pub open spec fn skip_spaces(s: Seq<char>) -> Seq<char>
    decreases s.len(),
{
    if s.len() > 0 && is_space(s[0]) {
        skip_spaces(s.drop_first())
    } else {
        s
    }
}

/// The payload that starts `s`, up to the first `]` that no `\` stands
/// before, and what follows that `]`. Every `\` is left out of the payload;
/// the character after a `\` never closes. Without such a `]` there is no
/// payload.
pub open spec fn delimited(s: Seq<char>) -> Option<(Seq<char>, Seq<char>)>
    decreases s.len(),
{
    if s.len() == 0 {
        None
    } else if s[0] == CLOSE {
        Some((Seq::<char>::empty(), s.skip(1)))
    } else if s[0] == ESCAPE {
        if s.len() == 1 {
            None
        } else {
            match delimited(s.skip(2)) {
                None => None,
                Some((p, r)) => Some(
                    (
                        if s[1] == ESCAPE {
                            p
                        } else {
                            seq![s[1]] + p
                        },
                        r,
                    ),
                ),
            }
        }
    } else {
        match delimited(s.skip(1)) {
            None => None,
            Some((p, r)) => Some((seq![s[0]] + p, r)),
        }
    }
}

/// The expression token that follows a modifier: white space, `[`, a payload.
pub open spec fn expression(s: Seq<char>, modifier: char) -> Lexed {
    let t = skip_spaces(s);
    if t.len() == 0 {
        Lexed { token: Some(Err(Fault::UnexpectedEof)), rest: t }
    } else if t[0] != OPEN {
        Lexed {
            token: Some(Err(Fault::UnexpectedCharacter { expected: OPEN, found: t[0] })),
            rest: t.skip(1),
        }
    } else {
        match delimited(t.skip(1)) {
            None => Lexed {
                token: Some(Err(Fault::UnclosedDelimiter { delimiter: CLOSE })),
                rest: Seq::<char>::empty(),
            },
            Some((p, r)) => Lexed { token: Some(Ok(Lexeme::Expr(modifier, p))), rest: r },
        }
    }
}

/// Whether a character is one of the three modifiers.
pub open spec fn is_modifier(c: char) -> bool {
    c == '=' || c == '?' || c == '$'
}

/// The first token of `s`.
pub open spec fn next_token(s: Seq<char>) -> Lexed {
    let t = skip_spaces(s);
    if t.len() == 0 {
        Lexed { token: None, rest: t }
    } else if t[0] == '(' {
        Lexed { token: Some(Ok(Lexeme::Open)), rest: t.skip(1) }
    } else if t[0] == ')' {
        Lexed { token: Some(Ok(Lexeme::Close)), rest: t.skip(1) }
    } else if t[0] == '!' {
        Lexed { token: Some(Ok(Lexeme::Not)), rest: t.skip(1) }
    } else if t[0] == '&' {
        Lexed { token: Some(Ok(Lexeme::And)), rest: t.skip(1) }
    } else if t[0] == '|' {
        Lexed { token: Some(Ok(Lexeme::Or)), rest: t.skip(1) }
    } else if is_modifier(t[0]) {
        expression(t.skip(1), t[0])
    } else if t[0] == OPEN {
        expression(t, '=')
    } else {
        Lexed { token: Some(Err(Fault::InvalidCharacter { c: t[0] })), rest: t }
    }
}

/// The view of what [`Tokenizer::next`] returns.
pub open spec fn lexed(r: Option<Result<Token, Error>>) -> Option<Result<Lexeme, Fault>> {
    match r {
        None => None,
        Some(Ok(t)) => Some(Ok(t@)),
        Some(Err(e)) => Some(Err(e@)),
    }
}

/// Skipping white space leaves a suffix.
pub proof fn lemma_skip_spaces(s: Seq<char>)
    ensures
        skip_spaces(s).len() <= s.len(),
        skip_spaces(s) == s.skip(s.len() - skip_spaces(s).len()),
        skip_spaces(s).len() > 0 ==> !is_space(skip_spaces(s)[0]),
    decreases s.len(),
{
    if s.len() > 0 && is_space(s[0]) {
        let t = s.drop_first();
        lemma_skip_spaces(t);
        let k = t.len() - skip_spaces(t).len();
        assert(t.skip(k) =~= s.skip(k + 1));
    } else {
        assert(s.skip(0) =~= s);
    }
}

/// A payload leaves a shorter suffix.
pub proof fn lemma_delimited(s: Seq<char>)
    ensures
        delimited(s) matches Some((p, r)) ==> r.len() < s.len() && r == s.skip(s.len() - r.len()),
    decreases s.len(),
{
    if s.len() == 0 {
    } else if s[0] == CLOSE {
    } else if s[0] == ESCAPE {
        if s.len() > 1 {
            let t = s.skip(2);
            lemma_delimited(t);
            if let Some((p, r)) = delimited(t) {
                assert(t.skip(t.len() - r.len()) =~= s.skip(s.len() - r.len()));
            }
        }
    } else {
        let t = s.skip(1);
        lemma_delimited(t);
        if let Some((p, r)) = delimited(t) {
            assert(t.skip(t.len() - r.len()) =~= s.skip(s.len() - r.len()));
        }
    }
}

/// A token leaves a suffix, and a shorter one where a token was read.
pub proof fn lemma_next_token(s: Seq<char>)
    ensures
        next_token(s).rest.len() <= s.len(),
        next_token(s).rest == s.skip(s.len() - next_token(s).rest.len()),
        next_token(s).token matches Some(Ok(_)) ==> next_token(s).rest.len() < s.len(),
{
    lemma_skip_spaces(s);
    let t = skip_spaces(s);
    let k = s.len() - t.len();
    if t.len() == 0 {
    } else if t[0] == '(' || t[0] == ')' || t[0] == '!' || t[0] == '&' || t[0] == '|' {
        assert(t.skip(1) =~= s.skip(k + 1));
    } else if is_modifier(t[0]) {
        lemma_expression(t.skip(1), t[0]);
        let r = expression(t.skip(1), t[0]).rest;
        assert(t.skip(1) =~= s.skip(k + 1));
        assert(t.skip(1).skip(t.skip(1).len() - r.len()) =~= s.skip(s.len() - r.len()));
    } else if t[0] == OPEN {
        lemma_expression(t, '=');
        let r = expression(t, '=').rest;
        assert(t.skip(t.len() - r.len()) =~= s.skip(s.len() - r.len()));
    } else {
    }
}

/// An expression token leaves a suffix, and a shorter one where it was read.
pub proof fn lemma_expression(s: Seq<char>, modifier: char)
    ensures
        expression(s, modifier).rest.len() <= s.len(),
        expression(s, modifier).rest == s.skip(s.len() - expression(s, modifier).rest.len()),
        expression(s, modifier).token matches Some(Ok(_)) ==> expression(s, modifier).rest.len()
            < s.len(),
{
    lemma_skip_spaces(s);
    let t = skip_spaces(s);
    let k = s.len() - t.len();
    if t.len() == 0 {
    } else if t[0] != OPEN {
        assert(t.skip(1) =~= s.skip(k + 1));
    } else {
        let u = t.skip(1);
        lemma_delimited(u);
        assert(u =~= s.skip(k + 1));
        match delimited(u) {
            None => {
                assert(s.skip(s.len() as int) =~= Seq::<char>::empty());
            },
            Some((p, r)) => {
                assert(u.skip(u.len() - r.len()) =~= s.skip(s.len() - r.len()));
            },
        }
    }
}

/// Reads tokens from the characters of an expression, one at a time.
pub struct Tokenizer {
    chars: Vec<char>,
    pos: usize,
}

impl Tokenizer {
    /// The position is inside the text.
    pub closed spec fn wf(&self) -> bool {
        self.pos <= self.chars@.len()
    }

    /// The characters that have not been read.
    pub closed spec fn rest(&self) -> Seq<char> {
        self.chars@.skip(self.pos as int)
    }

    /// A tokenizer at the start of `source`.
    pub fn new(source: &str) -> (t: Self)
        ensures
            t.wf(),
            t.rest() == source@,
    {
        let chars = to_chars(source);
        assert(chars@.skip(0) =~= chars@);
        Tokenizer { chars, pos: 0 }
    }

    /// A tokenizer at the start of `chars`.
    pub fn from_chars(chars: Vec<char>) -> (t: Self)
        ensures
            t.wf(),
            t.rest() == chars@,
    {
        assert(chars@.skip(0) =~= chars@);
        Tokenizer { chars, pos: 0 }
    }

    /// Moves past white space.
    fn skip_whitespace(&mut self)
        requires
            old(self).wf(),
        ensures
            final(self).wf(),
            final(self).rest() == skip_spaces(old(self).rest()),
            final(self).chars == old(self).chars,
    {
        while self.pos < self.chars.len() && is_whitespace(self.chars[self.pos])
            invariant
                self.wf(),
                self.chars == old(self).chars,
                skip_spaces(self.rest()) == skip_spaces(old(self).rest()),
            decreases self.chars@.len() - self.pos,
        {
            proof {
                assert(self.rest().drop_first() =~= self.chars@.skip(self.pos + 1));
            }
            self.pos += 1;
        }
    }

    /// Reads a payload up to its closing character.
    fn take_delimited(&mut self) -> (r: Result<String, Error>)
        requires
            old(self).wf(),
        ensures
            final(self).wf(),
            match delimited(old(self).rest()) {
                None => r matches Err(e) && e@ == (Fault::UnclosedDelimiter { delimiter: CLOSE })
                    && final(self).rest() == Seq::<char>::empty(),
                Some((p, rest)) => r matches Ok(s) && s@ == p && final(self).rest() == rest,
            },
    {
        let mut payload: Vec<char> = Vec::new();
        let n = self.chars.len();
        let ghost start = self.rest();
        loop
            invariant
                self.wf(),
                n == self.chars@.len(),
                self.chars == old(self).chars,
                start == old(self).rest(),
                delimited(start) == match delimited(self.rest()) {
                    None => None::<(Seq<char>, Seq<char>)>,
                    Some((p, r)) => Some((payload@ + p, r)),
                },
            decreases n - self.pos,
        {
            let ghost here = self.rest();
            if self.pos >= n {
                proof {
                    assert(here.len() == 0);
                    assert(self.chars@.skip(n as int) =~= Seq::<char>::empty());
                }
                return Err(Error::UnclosedDelimiter { delimiter: CLOSE });
            }
            let c = self.chars[self.pos];
            proof {
                assert(here[0] == c);
                assert(here.skip(1) =~= self.chars@.skip(self.pos + 1));
            }
            if c == CLOSE {
                self.pos += 1;
                proof {
                    assert(payload@ + Seq::<char>::empty() =~= payload@);
                }
                return Ok(collect(&payload));
            } else if c == ESCAPE {
                if self.pos + 1 >= n {
                    self.pos = n;
                    proof {
                        assert(here.len() == 1);
                        assert(self.chars@.skip(n as int) =~= Seq::<char>::empty());
                    }
                    return Err(Error::UnclosedDelimiter { delimiter: CLOSE });
                }
                let d = self.chars[self.pos + 1];
                proof {
                    assert(here[1] == d);
                    assert(here.skip(2) =~= self.chars@.skip(self.pos + 2));
                    if d != ESCAPE {
                        if let Some((p, r)) = delimited(here.skip(2)) {
                            assert(payload@ + (seq![d] + p) =~= payload@.push(d) + p);
                        }
                    }
                }
                if d != ESCAPE {
                    payload.push(d);
                }
                self.pos += 2;
            } else {
                proof {
                    if let Some((p, r)) = delimited(here.skip(1)) {
                        assert(payload@ + (seq![c] + p) =~= payload@.push(c) + p);
                    }
                }
                payload.push(c);
                self.pos += 1;
            }
        }
    }

    /// Reads what follows a modifier: white space, the opening character and
    /// the payload.
    fn take_expr(&mut self, modifier: char) -> (r: Result<Token, Error>)
        requires
            old(self).wf(),
        ensures
            final(self).wf(),
            lexed(Some(r)) == expression(old(self).rest(), modifier).token,
            final(self).rest() == expression(old(self).rest(), modifier).rest,
    {
        self.skip_whitespace();
        if self.pos >= self.chars.len() {
            return Err(Error::UnexpectedEof);
        }
        let c = self.chars[self.pos];
        proof {
            assert(self.rest()[0] == c);
            assert(self.rest().skip(1) =~= self.chars@.skip(self.pos + 1));
        }
        self.pos += 1;
        if c != OPEN {
            return Err(Error::UnexpectedCharacter { expected: OPEN, found: c });
        }
        match self.take_delimited() {
            Ok(s) => Ok(Token::Value(ValueToken::Expr(modifier, s))),
            Err(e) => Err(e),
        }
    }

    /// Reads the next token. Gives nothing once only white space is left.
    pub fn next(&mut self) -> (r: Option<Result<Token, Error>>)
        requires
            old(self).wf(),
        ensures
            final(self).wf(),
            lexed(r) == next_token(old(self).rest()).token,
            final(self).rest() == next_token(old(self).rest()).rest,
    {
        self.skip_whitespace();
        if self.pos >= self.chars.len() {
            return None;
        }
        let c = self.chars[self.pos];
        proof {
            assert(self.rest()[0] == c);
            assert(self.rest().skip(1) =~= self.chars@.skip(self.pos + 1));
        }
        if c == '(' {
            self.pos += 1;
            Some(Ok(Token::Value(ValueToken::Block)))
        } else if c == ')' {
            self.pos += 1;
            Some(Ok(Token::Close(CloseToken::Block)))
        } else if c == '!' {
            self.pos += 1;
            Some(Ok(Token::Unary(UnaryToken::Not)))
        } else if c == '&' {
            self.pos += 1;
            Some(Ok(Token::Binary(BinaryToken::And)))
        } else if c == '|' {
            self.pos += 1;
            Some(Ok(Token::Binary(BinaryToken::Or)))
        } else if c == '=' || c == '?' || c == '$' {
            self.pos += 1;
            Some(self.take_expr(c))
        } else if c == OPEN {
            Some(self.take_expr('='))
        } else {
            Some(Err(Error::InvalidCharacter { c }))
        }
    }
}

} // verus!
