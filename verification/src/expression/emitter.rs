//! Writes tokens back as text, and shows that the text reads as the same
//! tokens and the same syntax tree.
use crate::expression::error::Fault;
use crate::expression::expression::{compiled, wrapped};
use crate::expression::parser::{binary, lemma_operand, operand, parse, Tree};
use crate::expression::tokenizer::{
    delimited,
    expression,
    is_modifier,
    lemma_next_token,
    next_token,
    skip_spaces,
    BinaryToken,
    CloseToken,
    Lexed,
    Lexeme,
    Token,
    UnaryToken,
    ValueToken,
    CLOSE,
    ESCAPE,
    OPEN,
};
use crate::util::string::{collect, is_space, to_chars};
use vstd::prelude::*;

verus! {

/// Whether a payload holds no `\`: the payloads that the tokenizer gives.
pub open spec fn plain(p: Seq<char>) -> bool {
    forall|i: int| 0 <= i < p.len() ==> p[i] != ESCAPE
}

/// Whether a token is one that the tokenizer gives: an expression has one of
/// the three modifiers and a payload without `\`.
pub open spec fn valid(t: Lexeme) -> bool {
    match t {
        Lexeme::Expr(m, p) => is_modifier(m) && plain(p),
        _ => true,
    }
}

/// Whether every token of a list is one that the tokenizer gives.
pub open spec fn all_valid(ts: Seq<Lexeme>) -> bool {
    forall|i: int| 0 <= i < ts.len() ==> valid(#[trigger] ts[i])
}

/// A payload as it is written: with a `\` before each `]`.
pub open spec fn written_payload(p: Seq<char>) -> Seq<char>
    decreases p.len(),
{
    if p.len() == 0 {
        p
    } else if p[0] == CLOSE {
        seq![ESCAPE, CLOSE] + written_payload(p.skip(1))
    } else {
        seq![p[0]] + written_payload(p.skip(1))
    }
}

/// A token as it is written.
pub open spec fn written(t: Lexeme) -> Seq<char> {
    match t {
        Lexeme::Open => seq!['('],
        Lexeme::Close => seq![')'],
        Lexeme::Not => seq!['!'],
        Lexeme::And => seq!['&'],
        Lexeme::Or => seq!['|'],
        Lexeme::Expr(m, p) => seq![m, OPEN] + written_payload(p) + seq![CLOSE],
    }
}

/// The tokens of a list as they are written, one after the other.
pub open spec fn emitted(ts: Seq<Lexeme>) -> Seq<char>
    decreases ts.len(),
{
    if ts.len() == 0 {
        Seq::<char>::empty()
    } else {
        written(ts[0]) + emitted(ts.skip(1))
    }
}

/// All the tokens of a text, or the first error of reading them.
pub open spec fn lexemes(s: Seq<char>) -> Result<Seq<Lexeme>, Fault>
    decreases s.len(),
{
    let lex = next_token(s);
    match lex.token {
        None => Ok(Seq::<Lexeme>::empty()),
        Some(Err(e)) => Err(e),
        Some(Ok(t)) => if lex.rest.len() >= s.len() {
            Ok(seq![t])
        } else {
            match lexemes(lex.rest) {
                Ok(ts) => Ok(seq![t] + ts),
                Err(e) => Err(e),
            }
        },
    }
}

/// The views of a list of tokens.
pub open spec fn token_views(tokens: Seq<Token>) -> Seq<Lexeme> {
    tokens.map_values(|t: Token| t@)
}

/// Writes a payload, with a `\` before each `]`.
fn emit_payload(out: &mut Vec<char>, payload: &str)
    ensures
        final(out)@ == old(out)@ + written_payload(payload@),
{
    let chars = to_chars(payload);
    let ghost before = out@;
    let mut k: usize = 0;
    assert(chars@.skip(0) =~= chars@);
    while k < chars.len()
        invariant
            k <= chars@.len(),
            chars@ == payload@,
            before + written_payload(chars@) == out@ + written_payload(chars@.skip(k as int)),
        decreases chars@.len() - k,
    {
        let ghost rest = chars@.skip(k as int);
        let ghost was = out@;
        assert(rest[0] == chars@[k as int]);
        assert(rest.skip(1) =~= chars@.skip(k as int + 1));
        if chars[k] == CLOSE {
            out.push(ESCAPE);
            out.push(CLOSE);
            assert(out@ + written_payload(rest.skip(1)) =~= was + (seq![ESCAPE, CLOSE]
                + written_payload(rest.skip(1))));
        } else {
            out.push(chars[k]);
            assert(out@ + written_payload(rest.skip(1)) =~= was + (seq![rest[0]]
                + written_payload(rest.skip(1))));
        }
        k += 1;
    }
    assert(out@ + written_payload(chars@.skip(k as int)) =~= out@);
}

/// Writes a list of tokens as the text of an expression.
pub fn emit(tokens: &Vec<Token>) -> (text: String)
    ensures
        text@ == emitted(token_views(tokens@)),
{
    let mut out: Vec<char> = Vec::new();
    let mut i: usize = 0;
    let ghost all = token_views(tokens@);
    assert(all.skip(0) =~= all);
    assert(out@ + emitted(all) =~= emitted(all));
    while i < tokens.len()
        invariant
            i <= tokens@.len(),
            all == token_views(tokens@),
            emitted(all) == out@ + emitted(all.skip(i as int)),
        decreases tokens@.len() - i,
    {
        let ghost rest = all.skip(i as int);
        let ghost was = out@;
        assert(rest[0] == tokens@[i as int]@);
        assert(rest.skip(1) =~= all.skip(i as int + 1));
        match &tokens[i] {
            Token::Value(ValueToken::Block) => {
                out.push('(');
                assert(out@ =~= was + written(rest[0]));
            },
            Token::Close(CloseToken::Block) => {
                out.push(')');
                assert(out@ =~= was + written(rest[0]));
            },
            Token::Unary(UnaryToken::Not) => {
                out.push('!');
                assert(out@ =~= was + written(rest[0]));
            },
            Token::Binary(BinaryToken::And) => {
                out.push('&');
                assert(out@ =~= was + written(rest[0]));
            },
            Token::Binary(BinaryToken::Or) => {
                out.push('|');
                assert(out@ =~= was + written(rest[0]));
            },
            Token::Value(ValueToken::Expr(m, payload)) => {
                out.push(*m);
                out.push(OPEN);
                emit_payload(&mut out, payload.as_str());
                out.push(CLOSE);
                assert(out@ =~= was + written(rest[0]));
            },
        }
        assert(out@ + emitted(rest.skip(1)) =~= was + (written(rest[0]) + emitted(rest.skip(1))));
        i += 1;
    }
    assert(out@ + emitted(all.skip(i as int)) =~= out@);
    collect(&out)
}

/// A written payload, closed, reads as the payload.
pub proof fn lemma_payload_reads_back(p: Seq<char>, rest: Seq<char>)
    requires
        plain(p),
    ensures
        delimited(written_payload(p) + seq![CLOSE] + rest) == Some((p, rest)),
    decreases p.len(),
{
    let s = written_payload(p) + seq![CLOSE] + rest;
    if p.len() == 0 {
        assert(s[0] == CLOSE);
        assert(s.skip(1) =~= rest);
    } else {
        let q = p.skip(1);
        assert(plain(q)) by {
            assert forall|i: int| 0 <= i < q.len() implies q[i] != ESCAPE by {
                assert(q[i] == p[i + 1]);
            }
        }
        lemma_payload_reads_back(q, rest);
        let t = written_payload(q) + seq![CLOSE] + rest;
        assert(p[0] != ESCAPE);
        if p[0] == CLOSE {
            assert(s =~= seq![ESCAPE, CLOSE] + t);
            assert(s[0] == ESCAPE);
            assert(s[1] == CLOSE);
            assert(s.skip(2) =~= t);
            assert(seq![s[1]] + q =~= p);
        } else {
            assert(s =~= seq![p[0]] + t);
            assert(s[0] == p[0]);
            assert(s.skip(1) =~= t);
            assert(seq![s[0]] + q =~= p);
        }
    }
}

/// A written token reads as the token, and leaves what follows it.
pub proof fn lemma_token_reads_back(t: Lexeme, rest: Seq<char>)
    requires
        valid(t),
    ensures
        next_token(written(t) + rest) == (Lexed { token: Some(Ok(t)), rest }),
{
    let s = written(t) + rest;
    assert(s.len() > 0);
    assert(s[0] == written(t)[0]);
    assert(!is_space(s[0]));
    assert(skip_spaces(s) == s);
    match t {
        Lexeme::Expr(m, p) => {
            let u = s.skip(1);
            assert(u =~= seq![OPEN] + (written_payload(p) + seq![CLOSE] + rest));
            assert(u[0] == OPEN);
            assert(!is_space(u[0]));
            assert(skip_spaces(u) == u);
            assert(u.skip(1) =~= written_payload(p) + seq![CLOSE] + rest);
            lemma_payload_reads_back(p, rest);
            assert(expression(u, m) == (Lexed { token: Some(Ok(t)), rest }));
        },
        _ => {
            assert(s.skip(1) =~= rest);
        },
    }
}

/// Written tokens read as the same tokens.
pub proof fn lemma_tokens_read_back(ts: Seq<Lexeme>)
    requires
        all_valid(ts),
    ensures
        lexemes(emitted(ts)) == Ok::<Seq<Lexeme>, Fault>(ts),
    decreases ts.len(),
{
    if ts.len() == 0 {
        assert(skip_spaces(Seq::<char>::empty()) == Seq::<char>::empty());
        assert(ts =~= Seq::<Lexeme>::empty());
    } else {
        let rest = emitted(ts.skip(1));
        assert(all_valid(ts.skip(1))) by {
            assert forall|i: int| 0 <= i < ts.skip(1).len() implies valid(
                #[trigger] ts.skip(1)[i],
            ) by {
                assert(ts.skip(1)[i] == ts[i + 1]);
            }
        }
        lemma_token_reads_back(ts[0], rest);
        lemma_tokens_read_back(ts.skip(1));
        lemma_next_token(emitted(ts));
        assert(emitted(ts) == written(ts[0]) + rest);
        assert(next_token(emitted(ts)).rest == rest);
        assert(lexemes(rest) == Ok::<Seq<Lexeme>, Fault>(ts.skip(1)));
        assert(seq![ts[0]] + ts.skip(1) =~= ts);
    }
}

/// The payload that the tokenizer reads holds no `\`.
pub proof fn lemma_payload_plain(s: Seq<char>)
    ensures
        delimited(s) matches Some((p, _)) ==> plain(p),
    decreases s.len(),
{
    if s.len() == 0 {
    } else if s[0] == CLOSE {
    } else if s[0] == ESCAPE {
        if s.len() > 1 {
            lemma_payload_plain(s.skip(2));
        }
    } else {
        lemma_payload_plain(s.skip(1));
    }
}

/// The token that the tokenizer reads is valid.
pub proof fn lemma_token_valid(s: Seq<char>)
    ensures
        next_token(s).token matches Some(Ok(t)) ==> valid(t),
{
    let t = skip_spaces(s);
    if t.len() > 0 {
        if is_modifier(t[0]) {
            lemma_payload_plain(skip_spaces(t.skip(1)).skip(1));
        } else if t[0] == OPEN {
            lemma_payload_plain(skip_spaces(t).skip(1));
        }
    }
}

/// The tokens that the tokenizer reads are valid.
pub proof fn lemma_lexemes_valid(s: Seq<char>)
    ensures
        lexemes(s) matches Ok(ts) ==> all_valid(ts),
    decreases s.len(),
{
    let lex = next_token(s);
    lemma_token_valid(s);
    if let Some(Ok(t)) = lex.token {
        if lex.rest.len() < s.len() {
            lemma_lexemes_valid(lex.rest);
        }
    }
}

/// Two texts with the same tokens give the same node, and leave texts with
/// the same tokens.
pub proof fn lemma_same_parse(a: Seq<char>, b: Seq<char>, node: Option<Tree>)
    requires
        lexemes(a) is Ok,
        lexemes(a) == lexemes(b),
    ensures
        parse(a, node).node == parse(b, node).node,
        lexemes(parse(a, node).rest) is Ok,
        lexemes(parse(a, node).rest) == lexemes(parse(b, node).rest),
    decreases a.len(), 0int,
{
    let la = next_token(a);
    let lb = next_token(b);
    lemma_next_token(a);
    lemma_next_token(b);
    match la.token {
        None => {
            assert(lb.token is None);
            assert(la.rest.len() == 0);
            assert(lb.rest.len() == 0);
            assert(la.rest =~= lb.rest);
            assert(skip_spaces(la.rest) == la.rest);
        },
        Some(Err(_)) => {},
        Some(Ok(t)) => {
            let ta = lexemes(la.rest)->Ok_0;
            assert(lexemes(a) == Ok::<Seq<Lexeme>, Fault>(seq![t] + ta));
            assert(lb.token matches Some(Ok(_)));
            let u = lb.token->Some_0->Ok_0;
            let tb = lexemes(lb.rest)->Ok_0;
            assert(lexemes(b) == Ok::<Seq<Lexeme>, Fault>(seq![u] + tb));
            assert((seq![t] + ta)[0] == t);
            assert((seq![u] + tb)[0] == u);
            assert(t == u);
            assert((seq![t] + ta).skip(1) =~= ta);
            assert((seq![u] + tb).skip(1) =~= tb);
            assert(ta == tb);
            match t {
                Lexeme::Close => {},
                Lexeme::Expr(c, payload) => {
                    lemma_same_parse(la.rest, lb.rest, Some(Tree::Expr(c, payload)));
                },
                Lexeme::Open => {
                    lemma_same_operand(la.rest, lb.rest);
                    lemma_operand(la.rest);
                    lemma_operand(lb.rest);
                    let ia = operand(la.rest);
                    let ib = operand(lb.rest);
                    if let Ok(Some(tree)) = ia.node {
                        lemma_same_parse(ia.rest, ib.rest, Some(tree));
                    }
                },
                Lexeme::Not => {
                    lemma_same_operand(la.rest, lb.rest);
                    lemma_operand(la.rest);
                    lemma_operand(lb.rest);
                    let ia = operand(la.rest);
                    let ib = operand(lb.rest);
                    if let Ok(Some(tree)) = ia.node {
                        lemma_same_parse(ia.rest, ib.rest, Some(Tree::Not(Box::new(tree))));
                    }
                },
                Lexeme::And | Lexeme::Or => {
                    if let Some(lhs) = node {
                        lemma_same_operand(la.rest, lb.rest);
                        lemma_operand(la.rest);
                        lemma_operand(lb.rest);
                        let ia = operand(la.rest);
                        let ib = operand(lb.rest);
                        if let Ok(Some(rhs)) = ia.node {
                            lemma_same_parse(ia.rest, ib.rest, Some(binary(t, lhs, rhs)));
                        }
                    }
                },
            }
        },
    }
}

/// Two texts with the same tokens give the same operand, and leave texts
/// with the same tokens.
pub proof fn lemma_same_operand(a: Seq<char>, b: Seq<char>)
    requires
        lexemes(a) is Ok,
        lexemes(a) == lexemes(b),
    ensures
        operand(a).node == operand(b).node,
        lexemes(operand(a).rest) is Ok,
        lexemes(operand(a).rest) == lexemes(operand(b).rest),
    decreases a.len(), 1int,
{
    lemma_same_parse(a, b, None);
}

/// White space is skipped in the same way before what does not start with
/// white space.
pub proof fn lemma_skip_spaces_before(s: Seq<char>, x: Seq<char>)
    requires
        x.len() > 0,
        !is_space(x[0]),
    ensures
        skip_spaces(s + x) == skip_spaces(s) + x,
    decreases s.len(),
{
    if s.len() == 0 {
        assert(s + x =~= x);
        assert(skip_spaces(s) + x =~= x);
    } else if is_space(s[0]) {
        assert((s + x).drop_first() =~= s.drop_first() + x);
        lemma_skip_spaces_before(s.drop_first(), x);
    } else {
    }
}

/// A payload that is closed is read in the same way whatever follows.
pub proof fn lemma_payload_before(s: Seq<char>, x: Seq<char>)
    ensures
        delimited(s) matches Some((p, r)) ==> delimited(s + x) == Some((p, r + x)),
    decreases s.len(),
{
    if s.len() == 0 {
    } else if s[0] == CLOSE {
        assert((s + x).skip(1) =~= s.skip(1) + x);
    } else if s[0] == ESCAPE {
        if s.len() > 1 {
            lemma_payload_before(s.skip(2), x);
            assert((s + x).skip(2) =~= s.skip(2) + x);
            assert((s + x)[1] == s[1]);
        }
    } else {
        lemma_payload_before(s.skip(1), x);
        assert((s + x).skip(1) =~= s.skip(1) + x);
    }
}

/// A token is read in the same way before what does not start with white
/// space.
pub proof fn lemma_token_before(s: Seq<char>, x: Seq<char>)
    requires
        x.len() > 0,
        !is_space(x[0]),
        next_token(s).token matches Some(Ok(_)),
    ensures
        next_token(s + x) == (Lexed { token: next_token(s).token, rest: next_token(s).rest + x }),
{
    lemma_skip_spaces_before(s, x);
    let t = skip_spaces(s);
    let u = t + x;
    assert(u[0] == t[0]);
    assert(u.skip(1) =~= t.skip(1) + x);
    if t[0] == '(' || t[0] == ')' || t[0] == '!' || t[0] == '&' || t[0] == '|' {
    } else if is_modifier(t[0]) {
        let v = t.skip(1);
        lemma_skip_spaces_before(v, x);
        let w = skip_spaces(v);
        assert((w + x)[0] == w[0]);
        assert((w + x).skip(1) =~= w.skip(1) + x);
        lemma_payload_before(w.skip(1), x);
    } else {
        assert(skip_spaces(t) == t);
        assert(skip_spaces(u) == u);
        lemma_payload_before(t.skip(1), x);
    }
}

/// The tokens of a text before a closing parenthesis are those of the text
/// and the parenthesis.
pub proof fn lemma_lexemes_closed(s: Seq<char>)
    requires
        lexemes(s) is Ok,
    ensures
        lexemes(s + seq![')']) == Ok::<Seq<Lexeme>, Fault>(lexemes(s)->Ok_0 + seq![Lexeme::Close]),
    decreases s.len(),
{
    let x = seq![')'];
    let lex = next_token(s);
    lemma_next_token(s);
    lemma_next_token(s + x);
    match lex.token {
        None => {
            lemma_skip_spaces_before(s, x);
            assert(skip_spaces(s) + x =~= x);
            assert(x.skip(1) =~= Seq::<char>::empty());
            assert(skip_spaces(Seq::<char>::empty()) == Seq::<char>::empty());
            assert(lexemes(Seq::<char>::empty()) == Ok::<Seq<Lexeme>, Fault>(
                Seq::<Lexeme>::empty(),
            ));
            assert(seq![Lexeme::Close] + Seq::<Lexeme>::empty() =~= Seq::<Lexeme>::empty()
                + seq![Lexeme::Close]);
        },
        Some(Err(_)) => {},
        Some(Ok(t)) => {
            lemma_token_before(s, x);
            lemma_lexemes_closed(lex.rest);
            let ts = lexemes(lex.rest)->Ok_0;
            assert(seq![t] + (ts + seq![Lexeme::Close]) =~= (seq![t] + ts) + seq![Lexeme::Close]);
        },
    }
}

/// The tokens of a text in parentheses are those of the text between the two
/// parentheses.
pub proof fn lemma_lexemes_wrapped(s: Seq<char>)
    requires
        lexemes(s) is Ok,
    ensures
        lexemes(wrapped(s)) == Ok::<Seq<Lexeme>, Fault>(
            seq![Lexeme::Open] + (lexemes(s)->Ok_0 + seq![Lexeme::Close]),
        ),
{
    let w = wrapped(s);
    assert(w[0] == '(');
    assert(!is_space(w[0]));
    assert(skip_spaces(w) == w);
    assert(w.skip(1) =~= s + seq![')']);
    lemma_lexemes_closed(s);
}

/// Reading a text, writing its tokens and reading them again gives the same
/// tokens and the same syntax tree as reading the text once, and the written
/// text compiles to what the text compiles to, for every text whose tokens
/// can all be read.
pub proof fn lemma_emit_round_trip(s: Seq<char>)
    requires
        lexemes(s) is Ok,
    ensures
        lexemes(emitted(lexemes(s)->Ok_0)) == lexemes(s),
        parse(emitted(lexemes(s)->Ok_0), None).node == parse(s, None).node,
        compiled(emitted(lexemes(s)->Ok_0)) == compiled(s),
{
    let ts = lexemes(s)->Ok_0;
    lemma_lexemes_valid(s);
    lemma_tokens_read_back(ts);
    lemma_same_parse(s, emitted(ts), None);
    lemma_lexemes_wrapped(s);
    lemma_lexemes_wrapped(emitted(ts));
    lemma_same_parse(wrapped(s), wrapped(emitted(ts)), None);
}

} // verus!
